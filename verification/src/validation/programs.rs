//! Structural and dataflow validation of operation programs: each
//! reachable path ends at a terminal, no step follows one, and every
//! artifact, binding, variant payload and async handle is consumed only
//! where control flow definitely provides it.
//!
//! The analysis is forward definite availability. Artifacts: a
//! transaction adds what it establishes or recovers; a join keeps what
//! every predecessor guarantees. Result bindings: an effect-executing
//! step adds the binding it declares. Variants: a match arm selects its
//! variant for its own extent only, so no payload survives the join
//! after the match.

use vstd::prelude::*;

use crate::model::{
    arm_text, child_location, condition_roots, derivation_roots, outcome_values, source_id,
    transaction_step_roots, Arm, AsyncJoin, ErrorArm, Id, IdempotencyGuarantee, Model, Operation,
    OperationBlock, OperationStep, ResultVariant, StepLocation, TransactionStep, ValueRef,
    ValueSource,
};

use super::availability::{
    fallthrough_view, join, join_view, nothing_available, Availability, AvailabilityView, IdSet,
};
use super::error::{ProgramUse, ValidationError};
use crate::model::{result_binding, MatchResultStep, ResultArm, TransactionOutcome};
use crate::verification::paths::TerminalAt;
use crate::verification::paths::{
    block_paths, continue_paths, decision_at, lemma_block_paths_prefix, lemma_match_outcomes_prefix,
    lemma_step_outcomes_prefix, match_outcomes, prepend, program_paths, step_at, step_outcomes,
    Decision, Located, StepKind, Trace,
};

verus! {

/// A program finding by the text of its location.
pub enum Finding {
    ArtifactNotAvailable { operation: Id, location: Seq<char>, artifact: Id, consumer: ProgramUse },
    ResultNotBound { operation: Id, location: Seq<char>, result: Id, consumer: ProgramUse },
    VariantOutOfScope {
        operation: Id,
        location: Seq<char>,
        result: Id,
        variant: ResultVariant,
        consumer: ProgramUse,
    },
    Unreachable { operation: Id, location: Seq<char> },
    NotTerminated { operation: Id },
    HandleNotAvailable { operation: Id, location: Seq<char>, handle: Id, consumer: ProgramUse },
    DuplicateHandle { operation: Id, location: Seq<char>, handle: Id, consumer: ProgramUse },
    EmptyJoinAll { operation: Id, location: Seq<char> },
    RaceTooFewHandles { operation: Id, location: Seq<char>, count: usize },
    /// An error program validation never reports.
    Other,
}

pub open spec fn finding_of(error: ValidationError) -> Finding {
    match error {
        ValidationError::TransactionArtifactNotAvailable { operation, location, artifact, consumer } => Finding::ArtifactNotAvailable {
            operation,
            location: location.label@,
            artifact,
            consumer,
        },
        ValidationError::EffectResultNotBound { operation, location, result, consumer } => Finding::ResultNotBound {
            operation,
            location: location.label@,
            result,
            consumer,
        },
        ValidationError::EffectResultVariantOutOfScope { operation, location, result, variant, consumer } => Finding::VariantOutOfScope {
            operation,
            location: location.label@,
            result,
            variant,
            consumer,
        },
        ValidationError::UnreachableProgramStep { operation, location } => Finding::Unreachable {
            operation,
            location: location.label@,
        },
        ValidationError::ProgramNotTerminated { operation } => Finding::NotTerminated { operation },
        ValidationError::AsyncHandleNotAvailable { operation, location, handle, consumer } => Finding::HandleNotAvailable {
            operation,
            location: location.label@,
            handle,
            consumer,
        },
        ValidationError::DuplicateSynchronizationHandle { operation, location, handle, consumer } => Finding::DuplicateHandle {
            operation,
            location: location.label@,
            handle,
            consumer,
        },
        ValidationError::EmptyJoinAll { operation, location } => Finding::EmptyJoinAll {
            operation,
            location: location.label@,
        },
        ValidationError::RaceRequiresTwoHandles { operation, location, count } => Finding::RaceTooFewHandles {
            operation,
            location: location.label@,
            count,
        },
        _ => Finding::Other,
    }
}

pub open spec fn findings_of(errors: Seq<ValidationError>) -> Seq<Finding> {
    errors.map_values(|error: ValidationError| finding_of(error))
}

/// What the analysis has found so far, and which (step, declaration)
/// pairs it has reported: one diagnostic per pair, however many
/// references the step makes to it.
pub struct Flow {
    pub findings: Seq<Finding>,
    pub reported: Set<(Seq<char>, Seq<char>)>,
}

pub open spec fn report_once(flow: Flow, location: Seq<char>, id: Id, finding: Finding) -> Flow {
    if flow.reported.contains((location, id@)) {
        flow
    } else {
        Flow { findings: flow.findings.push(finding), reported: flow.reported.insert((location, id@)) }
    }
}

pub open spec fn found(flow: Flow, finding: Finding) -> Flow {
    Flow { findings: flow.findings.push(finding), ..flow }
}

/// A reference to a declaration the state does not guarantee here is
/// reported.
pub open spec fn require_spec(
    operation: Id,
    flow: Flow,
    state: AvailabilityView,
    root: ValueRef,
    location: Seq<char>,
    consumer: ProgramUse,
) -> Flow {
    match root.source {
        ValueSource::TransactionOutput(output) => if state.artifacts.contains(output@) {
            flow
        } else {
            report_once(
                flow,
                location,
                output,
                Finding::ArtifactNotAvailable { operation, location, artifact: output, consumer },
            )
        },
        ValueSource::EffectResultOk(result) => if state.ok.contains(result@) {
            flow
        } else if state.bound.contains(result@) {
            report_once(
                flow,
                location,
                result,
                Finding::VariantOutOfScope {
                    operation,
                    location,
                    result,
                    variant: ResultVariant::Success,
                    consumer,
                },
            )
        } else {
            report_once(
                flow,
                location,
                result,
                Finding::ResultNotBound { operation, location, result, consumer },
            )
        },
        ValueSource::EffectResultErr(result) => if state.err.contains(result@) {
            flow
        } else if state.bound.contains(result@) {
            report_once(
                flow,
                location,
                result,
                Finding::VariantOutOfScope {
                    operation,
                    location,
                    result,
                    variant: ResultVariant::Failure,
                    consumer,
                },
            )
        } else {
            report_once(
                flow,
                location,
                result,
                Finding::ResultNotBound { operation, location, result, consumer },
            )
        },
        _ => flow,
    }
}

/// The first `count` roots required in turn.
pub open spec fn require_roots(
    operation: Id,
    flow: Flow,
    state: AvailabilityView,
    roots: Seq<ValueRef>,
    count: nat,
    location: Seq<char>,
    consumer: ProgramUse,
) -> Flow
    decreases count,
{
    if count == 0 || count > roots.len() {
        flow
    } else {
        require_spec(
            operation,
            require_roots(operation, flow, state, roots, (count - 1) as nat, location, consumer),
            state,
            roots[count - 1],
            location,
            consumer,
        )
    }
}

/// The roots of one body step required in turn, except references to
/// an output an earlier step of the body established.
pub open spec fn require_body_roots(
    operation: Id,
    flow: Flow,
    state: AvailabilityView,
    roots: Seq<ValueRef>,
    count: nat,
    location: Seq<char>,
    consumer: ProgramUse,
    here: Set<Seq<char>>,
) -> Flow
    decreases count,
{
    if count == 0 || count > roots.len() {
        flow
    } else {
        let earlier = require_body_roots(
            operation,
            flow,
            state,
            roots,
            (count - 1) as nat,
            location,
            consumer,
            here,
        );
        let root = roots[count - 1];
        if root.source matches ValueSource::TransactionOutput(output) && here.contains(output@) {
            earlier
        } else {
            require_spec(operation, earlier, state, root, location, consumer)
        }
    }
}

/// The outputs the first `count` body steps establish.
pub open spec fn established_here(steps: Seq<TransactionStep>, count: nat) -> Set<Seq<char>>
    decreases count,
{
    if count == 0 || count > steps.len() {
        Set::empty()
    } else {
        let earlier = established_here(steps, (count - 1) as nat);
        match steps[count - 1] {
            TransactionStep::EstablishTransactionOutput { bind, .. } => earlier.insert(bind@),
            _ => earlier,
        }
    }
}

/// The references of the first `count` body steps required in turn.
pub open spec fn require_body(
    operation: Id,
    flow: Flow,
    state: AvailabilityView,
    steps: Seq<TransactionStep>,
    count: nat,
    location: Seq<char>,
    consumer: ProgramUse,
) -> Flow
    decreases count,
{
    if count == 0 || count > steps.len() {
        flow
    } else {
        let roots = transaction_step_roots(steps[count - 1]);
        require_body_roots(
            operation,
            require_body(operation, flow, state, steps, (count - 1) as nat, location, consumer),
            state,
            roots,
            roots.len(),
            location,
            consumer,
            established_here(steps, (count - 1) as nat),
        )
    }
}

/// The artifacts the first `count` body steps establish or recover:
/// the outputs and intents they bind, and the intents of the
/// transitions they apply.
pub open spec fn established_by(steps: Seq<TransactionStep>, count: nat) -> Set<Seq<char>>
    decreases count,
{
    if count == 0 || count > steps.len() {
        Set::empty()
    } else {
        let earlier = established_by(steps, (count - 1) as nat);
        match steps[count - 1] {
            TransactionStep::EstablishTransactionOutput { bind, .. } => earlier.insert(bind@),
            TransactionStep::EstablishEffectIntent { bind, .. } => earlier.insert(bind@),
            TransactionStep::Transition { intents, .. } => earlier.union(
                Set::new(|text: Seq<char>| exists|i: int| 0 <= i < intents@.len() && #[trigger] intents@[i]@ == text),
            ),
            _ => earlier,
        }
    }
}

pub open spec fn with_bound(state: AvailabilityView, bind: Option<Id>) -> AvailabilityView {
    match bind {
        Option::Some(bind) => AvailabilityView { bound: state.bound.insert(bind@), ..state },
        Option::None => state,
    }
}

/// Whether `handles` names `handle` before position `count`.
pub open spec fn named_before(handles: Seq<Id>, count: int, handle: Id) -> bool {
    exists|k: int| 0 <= k < count && #[trigger] handles[k]@ == handle@
}

/// The first `count` handles of a synchronization step checked in
/// turn: a repeated handle is a duplicate, and one no launch on every
/// reaching path binds is not available.
pub open spec fn check_handles(
    operation: Id,
    flow: Flow,
    state: AvailabilityView,
    handles: Seq<Id>,
    count: nat,
    location: Seq<char>,
    consumer: ProgramUse,
) -> Flow
    decreases count,
{
    if count == 0 || count > handles.len() {
        flow
    } else {
        let earlier = check_handles(
            operation,
            flow,
            state,
            handles,
            (count - 1) as nat,
            location,
            consumer,
        );
        let handle = handles[count - 1];
        if named_before(handles, count - 1, handle) {
            found(earlier, Finding::DuplicateHandle { operation, location, handle, consumer })
        } else if !state.handles.contains(handle@) {
            found(earlier, Finding::HandleNotAvailable { operation, location, handle, consumer })
        } else {
            earlier
        }
    }
}

pub open spec fn join_handles(joins: Seq<AsyncJoin>) -> Seq<Id> {
    joins.map_values(|join: AsyncJoin| join.handle)
}

/// The state after the first `count` joins of a `join_all` bind their
/// results.
pub open spec fn bind_joins(state: AvailabilityView, joins: Seq<AsyncJoin>, count: nat) -> AvailabilityView
    decreases count,
{
    if count == 0 || count > joins.len() {
        state
    } else {
        with_bound(bind_joins(state, joins, (count - 1) as nat), joins[count - 1].bind)
    }
}

/// The steps of a block from `from` on, analyzed in turn from `state`:
/// what falls through the block's end, or nothing when every path
/// through it terminates, and what was found. The first step after a
/// terminal is reported unreachable, and the rest are not analyzed.
pub open spec fn flow_block(
    operation: Id,
    steps: Seq<OperationStep>,
    from: int,
    parent: Seq<char>,
    arm: Option<Arm>,
    state: AvailabilityView,
    flow: Flow,
) -> (Option<AvailabilityView>, Flow)
    decreases steps, 1nat, steps.len() - from,
{
    if from < 0 || from >= steps.len() {
        (Option::Some(state), flow)
    } else {
        let here = flow_step(operation, steps[from], child_location(parent, arm, from), state, flow);
        match here.0 {
            Option::Some(next) => flow_block(operation, steps, from + 1, parent, arm, next, here.1),
            Option::None => if from + 1 < steps.len() {
                (
                    Option::None,
                    found(
                        here.1,
                        Finding::Unreachable {
                            operation,
                            location: child_location(parent, arm, from + 1),
                        },
                    ),
                )
            } else {
                (Option::None, here.1)
            },
        }
    }
}

/// The first `count` error arms of a match analyzed in turn, each from
/// `state`: the join of what falls through them.
pub open spec fn flow_arms(
    operation: Id,
    arms: Seq<ErrorArm>,
    count: nat,
    location: Seq<char>,
    state: AvailabilityView,
    flow: Flow,
) -> (Option<AvailabilityView>, Flow)
    decreases arms, 1nat, count,
{
    if count == 0 || count > arms.len() {
        (Option::None, flow)
    } else {
        let earlier = flow_arms(operation, arms, (count - 1) as nat, location, state, flow);
        let arm = arms[count - 1];
        let this = flow_block(
            operation,
            arm.block.steps@,
            0,
            location,
            Option::Some(Arm::Failure(arm.error)),
            state,
            earlier.1,
        );
        (join_view(earlier.0, this.0), this.1)
    }
}

/// Drops the variant selections a match made, keeping those an
/// enclosing arm had already made.
pub open spec fn unselect(
    state: Option<AvailabilityView>,
    result: Id,
    outer_ok: bool,
    outer_err: bool,
) -> Option<AvailabilityView> {
    match state {
        Option::Some(s) => Option::Some(
            AvailabilityView {
                ok: if outer_ok {
                    s.ok
                } else {
                    s.ok.remove(result@)
                },
                err: if outer_err {
                    s.err
                } else {
                    s.err.remove(result@)
                },
                ..s
            },
        ),
        Option::None => Option::None,
    }
}

/// One step analyzed from `state`: what holds after it, or nothing when
/// it terminates every path through it, and what was found.
pub open spec fn flow_step(
    operation: Id,
    step: OperationStep,
    location: Seq<char>,
    state: AvailabilityView,
    flow: Flow,
) -> (Option<AvailabilityView>, Flow)
    decreases step, 0nat, 0int,
{
    match step {
        OperationStep::Transaction(execution) => {
            let body = execution.transaction;
            let consumer = ProgramUse::Transaction { transaction: body.id };
            let keyed = match body.idempotency {
                IdempotencyGuarantee::DeduplicatedBy { key } => require_roots(
                    operation,
                    flow,
                    state,
                    key.components@,
                    key.components@.len(),
                    location,
                    consumer,
                ),
                _ => flow,
            };
            let checked = require_body(
                operation,
                keyed,
                state,
                body.steps@,
                body.steps@.len(),
                location,
                consumer,
            );
            let committed = AvailabilityView {
                artifacts: state.artifacts.union(established_by(body.steps@, body.steps@.len())),
                ..state
            };
            match execution.rejected {
                Option::Some(block) => {
                    let rejected = flow_block(
                        operation,
                        block.steps@,
                        0,
                        location,
                        Option::Some(Arm::Rejected),
                        state,
                        checked,
                    );
                    (join_view(Option::Some(committed), rejected.0), rejected.1)
                },
                Option::None => (Option::Some(committed), checked),
            }
        },
        OperationStep::ExecuteEffect(s) => {
            let consumer = ProgramUse::Effect { effect: s.effect_id };
            let values = derivation_roots(s.values);
            let first = require_roots(operation, flow, state, values, values.len(), location, consumer);
            let second = require_roots(
                operation,
                first,
                state,
                s.effect.references@,
                s.effect.references@.len(),
                location,
                consumer,
            );
            (Option::Some(with_bound(state, s.bind)), second)
        },
        OperationStep::ExecuteEffectIntent(s) => {
            let checked = if state.artifacts.contains(s.intent@) {
                flow
            } else {
                report_once(
                    flow,
                    location,
                    s.intent,
                    Finding::ArtifactNotAvailable {
                        operation,
                        location,
                        artifact: s.intent,
                        consumer: ProgramUse::EffectIntent { intent: s.intent },
                    },
                )
            };
            (Option::Some(with_bound(state, s.bind)), checked)
        },
        OperationStep::ExecuteEffectAsync(s) => {
            let consumer = ProgramUse::Effect { effect: s.effect_id };
            let values = derivation_roots(s.values);
            let first = require_roots(operation, flow, state, values, values.len(), location, consumer);
            let second = require_roots(
                operation,
                first,
                state,
                s.effect.references@,
                s.effect.references@.len(),
                location,
                consumer,
            );
            (
                Option::Some(AvailabilityView { handles: state.handles.insert(s.handle@), ..state }),
                second,
            )
        },
        OperationStep::ExecuteEffectIntentAsync(s) => {
            let checked = if state.artifacts.contains(s.intent@) {
                flow
            } else {
                report_once(
                    flow,
                    location,
                    s.intent,
                    Finding::ArtifactNotAvailable {
                        operation,
                        location,
                        artifact: s.intent,
                        consumer: ProgramUse::EffectIntent { intent: s.intent },
                    },
                )
            };
            (
                Option::Some(AvailabilityView { handles: state.handles.insert(s.handle@), ..state }),
                checked,
            )
        },
        OperationStep::JoinAll(s) => {
            let handles = join_handles(s.handles@);
            let empty = if handles.len() == 0 {
                found(flow, Finding::EmptyJoinAll { operation, location })
            } else {
                flow
            };
            let checked = check_handles(
                operation,
                empty,
                state,
                handles,
                handles.len(),
                location,
                ProgramUse::JoinAll,
            );
            (Option::Some(bind_joins(state, s.handles@, s.handles@.len())), checked)
        },
        OperationStep::Race(s) => {
            let few = if s.handles@.len() < 2 {
                found(
                    flow,
                    Finding::RaceTooFewHandles { operation, location, count: s.handles@.len() as usize },
                )
            } else {
                flow
            };
            let checked = check_handles(
                operation,
                few,
                state,
                s.handles@,
                s.handles@.len(),
                location,
                ProgramUse::Race,
            );
            (Option::Some(with_bound(state, s.bind)), checked)
        },
        OperationStep::MatchResult(s) => {
            let checked = if state.bound.contains(s.result@) {
                flow
            } else {
                found(
                    flow,
                    Finding::ResultNotBound {
                        operation,
                        location,
                        result: s.result,
                        consumer: ProgramUse::Match,
                    },
                )
            };
            let outer_ok = state.ok.contains(s.result@);
            let outer_err = state.err.contains(s.result@);
            let success = flow_block(
                operation,
                s.ok.steps@,
                0,
                location,
                Option::Some(Arm::Success),
                AvailabilityView { ok: state.ok.insert(s.result@), ..state },
                checked,
            );
            let failures = flow_arms(
                operation,
                s.errors@,
                s.errors@.len(),
                location,
                AvailabilityView { err: state.err.insert(s.result@), ..state },
                success.1,
            );
            (unselect(join_view(success.0, failures.0), s.result, outer_ok, outer_err), failures.1)
        },
        OperationStep::Branch(s) => {
            let roots = condition_roots(s.condition);
            let checked = require_roots(
                operation,
                flow,
                state,
                roots,
                roots.len(),
                location,
                ProgramUse::Condition,
            );
            let taken = flow_block(
                operation,
                s.then_block.steps@,
                0,
                location,
                Option::Some(Arm::Then),
                state,
                checked,
            );
            match s.otherwise {
                Option::Some(block) => {
                    let other = flow_block(
                        operation,
                        block.steps@,
                        0,
                        location,
                        Option::Some(Arm::Otherwise),
                        state,
                        taken.1,
                    );
                    (join_view(taken.0, other.0), other.1)
                },
                Option::None => (join_view(taken.0, Option::Some(state)), taken.1),
            }
        },
        OperationStep::Return(s) => {
            let roots = derivation_roots(outcome_values(s.outcome));
            (
                Option::None,
                require_roots(
                    operation,
                    flow,
                    state,
                    roots,
                    roots.len(),
                    location,
                    ProgramUse::Return { request: s.request },
                ),
            )
        },
        OperationStep::Complete => (Option::None, flow),
    }
}

// The analysis.

pub open spec fn pair_set(pairs: Seq<(String, String)>) -> Set<(Seq<char>, Seq<char>)> {
    Set::new(
        |pair: (Seq<char>, Seq<char>)|
            exists|i: int|
                0 <= i < pairs.len() && #[trigger] pairs[i].0@ == pair.0 && pairs[i].1@ == pair.1,
    )
}

/// The forward definite-availability analysis over one operation
/// program.
pub struct ProgramValidator<'a> {
    pub operation_id: &'a Id,
    pub errors: Vec<ValidationError>,
    /// The (step, declaration) pairs already reported.
    pub reported: Vec<(String, String)>,
}

impl<'a> ProgramValidator<'a> {
    pub open spec fn flow(&self) -> Flow {
        Flow { findings: findings_of(self.errors@), reported: pair_set(self.reported@) }
    }

    fn push_error(&mut self, error: ValidationError)
        ensures
            final(self).operation_id == old(self).operation_id,
            final(self).flow() == found(old(self).flow(), finding_of(error)),
    {
        let ghost before = self.errors@;
        self.errors.push(error);
        proof {
            assert(findings_of(self.errors@) =~= findings_of(before).push(finding_of(error)));
        }
    }

    /// Reports `error` unless this step already reported `id`.
    fn report_once(&mut self, location: &StepLocation, id: &Id, error: ValidationError)
        ensures
            final(self).operation_id == old(self).operation_id,
            final(self).flow() == report_once(old(self).flow(), location.label@, *id, finding_of(error)),
    {
        let mut i: usize = 0;
        while i < self.reported.len()
            invariant
                i <= self.reported@.len(),
                forall|k: int|
                    0 <= k < i ==> !(self.reported@[k].0@ == location.label@ && self.reported@[k].1@
                        == id@),
            decreases self.reported@.len() - i,
        {
            if self.reported[i].0 == location.label && self.reported[i].1 == *id {
                proof {
                    assert(pair_set(self.reported@).contains((location.label@, id@)));
                }
                return;
            }
            i += 1;
        }
        let ghost before = self.reported@;
        self.reported.push((location.label.clone(), id.clone()));
        proof {
            assert forall|pair: (Seq<char>, Seq<char>)|
                pair_set(self.reported@).contains(pair) <==> pair_set(before).insert(
                    (location.label@, id@),
                ).contains(pair) by {
                if pair_set(self.reported@).contains(pair) {
                    let k = choose|k: int|
                        0 <= k < self.reported@.len() && #[trigger] self.reported@[k].0@ == pair.0
                            && self.reported@[k].1@ == pair.1;
                    if k < before.len() {
                        assert(before[k].0@ == pair.0);
                    }
                }
                if pair_set(before).contains(pair) {
                    let k = choose|k: int|
                        0 <= k < before.len() && #[trigger] before[k].0@ == pair.0 && before[k].1@
                            == pair.1;
                    assert(self.reported@[k].0@ == pair.0);
                }
                if pair == (location.label@, id@) {
                    assert(self.reported@[before.len() as int].0@ == pair.0);
                }
            }
            assert(pair_set(self.reported@) =~= pair_set(before).insert((location.label@, id@)));
            assert(!pair_set(before).contains((location.label@, id@)));
        }
        self.push_error(error);
    }

    /// Reports a reference to a declaration the state does not
    /// guarantee at this point.
    fn require(&mut self, state: &Availability, root: &ValueRef, location: &StepLocation, consumer: &ProgramUse)
        ensures
            final(self).operation_id == old(self).operation_id,
            final(self).flow() == require_spec(
                *old(self).operation_id,
                old(self).flow(),
                state@,
                *root,
                location.label@,
                *consumer,
            ),
    {
        match &root.source {
            ValueSource::TransactionOutput(output) => {
                if !state.artifacts.contains(output) {
                    let error = ValidationError::TransactionArtifactNotAvailable {
                        operation: self.operation_id.clone(),
                        location: location.clone(),
                        artifact: output.clone(),
                        consumer: consumer.clone(),
                    };
                    self.report_once(location, output, error);
                }
            },
            ValueSource::EffectResultOk(result) => {
                if !state.ok.contains(result) {
                    let error = if state.bound.contains(result) {
                        ValidationError::EffectResultVariantOutOfScope {
                            operation: self.operation_id.clone(),
                            location: location.clone(),
                            result: result.clone(),
                            variant: ResultVariant::Success,
                            consumer: consumer.clone(),
                        }
                    } else {
                        ValidationError::EffectResultNotBound {
                            operation: self.operation_id.clone(),
                            location: location.clone(),
                            result: result.clone(),
                            consumer: consumer.clone(),
                        }
                    };
                    self.report_once(location, result, error);
                }
            },
            ValueSource::EffectResultErr(result) => {
                if !state.err.contains(result) {
                    let error = if state.bound.contains(result) {
                        ValidationError::EffectResultVariantOutOfScope {
                            operation: self.operation_id.clone(),
                            location: location.clone(),
                            result: result.clone(),
                            variant: ResultVariant::Failure,
                            consumer: consumer.clone(),
                        }
                    } else {
                        ValidationError::EffectResultNotBound {
                            operation: self.operation_id.clone(),
                            location: location.clone(),
                            result: result.clone(),
                            consumer: consumer.clone(),
                        }
                    };
                    self.report_once(location, result, error);
                }
            },
            _ => {},
        }
    }

    fn require_roots(
        &mut self,
        state: &Availability,
        roots: &[ValueRef],
        location: &StepLocation,
        consumer: &ProgramUse,
    )
        ensures
            final(self).operation_id == old(self).operation_id,
            final(self).flow() == require_roots(
                *old(self).operation_id,
                old(self).flow(),
                state@,
                roots@,
                roots@.len(),
                location.label@,
                *consumer,
            ),
    {
        let ghost start = self.flow();
        let mut i: usize = 0;
        while i < roots.len()
            invariant
                i <= roots@.len(),
                self.operation_id == old(self).operation_id,
                self.flow() == require_roots(
                    *self.operation_id,
                    start,
                    state@,
                    roots@,
                    i as nat,
                    location.label@,
                    *consumer,
                ),
            decreases roots@.len() - i,
        {
            self.require(state, &roots[i], location, consumer);
            i += 1;
        }
    }

    /// Checks the handles a synchronization step waits on.
    fn check_handles(
        &mut self,
        state: &Availability,
        handles: &Vec<Id>,
        location: &StepLocation,
        consumer: &ProgramUse,
    )
        ensures
            final(self).operation_id == old(self).operation_id,
            final(self).flow() == check_handles(
                *old(self).operation_id,
                old(self).flow(),
                state@,
                handles@,
                handles@.len(),
                location.label@,
                *consumer,
            ),
    {
        let ghost start = self.flow();
        let mut i: usize = 0;
        while i < handles.len()
            invariant
                i <= handles@.len(),
                self.operation_id == old(self).operation_id,
                self.flow() == check_handles(
                    *self.operation_id,
                    start,
                    state@,
                    handles@,
                    i as nat,
                    location.label@,
                    *consumer,
                ),
            decreases handles@.len() - i,
        {
            let handle = &handles[i];
            let mut repeated = false;
            let mut k: usize = 0;
            while k < i
                invariant
                    k <= i < handles@.len(),
                    *handle == handles@[i as int],
                    repeated == named_before(handles@, k as int, handles@[i as int]),
                decreases i - k,
            {
                let same = handles[k] == *handle;
                proof {
                    if same {
                        assert(handles@[k as int]@ == handles@[i as int]@);
                        assert(named_before(handles@, (k + 1) as int, handles@[i as int]));
                    } else if named_before(handles@, (k + 1) as int, handles@[i as int]) {
                        let j = choose|j: int|
                            0 <= j < k + 1 && #[trigger] handles@[j]@ == handles@[i as int]@;
                        assert(j != k);
                        assert(named_before(handles@, k as int, handles@[i as int]));
                    }
                }
                if same {
                    repeated = true;
                }
                k += 1;
            }
            if repeated {
                self.push_error(
                    ValidationError::DuplicateSynchronizationHandle {
                        operation: self.operation_id.clone(),
                        location: location.clone(),
                        handle: handle.clone(),
                        consumer: consumer.clone(),
                    },
                );
            } else if !state.handles.contains(handle) {
                self.push_error(
                    ValidationError::AsyncHandleNotAvailable {
                        operation: self.operation_id.clone(),
                        location: location.clone(),
                        handle: handle.clone(),
                        consumer: consumer.clone(),
                    },
                );
            }
            i += 1;
        }
    }

    /// The steps of a block analyzed in turn: what falls through its
    /// end, or nothing when every path through it terminates.
    pub fn block(
        &mut self,
        steps: &Vec<OperationStep>,
        parent: &StepLocation,
        arm: &Option<Arm>,
        entry: Availability,
    ) -> (r: Option<Availability>)
        ensures
            final(self).operation_id == old(self).operation_id,
            (fallthrough_view(r), final(self).flow()) == flow_block(
                *old(self).operation_id,
                steps@,
                0,
                parent.label@,
                *arm,
                entry@,
                old(self).flow(),
            ),
        decreases steps@, 1nat, 0int,
    {
        let ghost start = (entry@, self.flow());
        let mut state = entry;
        let mut i: usize = 0;
        while i < steps.len()
            invariant
                i <= steps@.len(),
                self.operation_id == old(self).operation_id,
                start == (entry@, old(self).flow()),
                flow_block(*self.operation_id, steps@, 0, parent.label@, *arm, start.0, start.1)
                    == flow_block(
                    *self.operation_id,
                    steps@,
                    i as int,
                    parent.label@,
                    *arm,
                    state@,
                    self.flow(),
                ),
            decreases steps@.len() - i,
        {
            let location = OperationBlock::location(parent, arm, i);
            proof {
                assert(decreases_to!(steps@ => steps@[i as int]));
            }
            let ghost entry = (state@, self.flow());
            match self.step(&steps[i], &location, state) {
                Option::Some(next) => {
                    state = next;
                },
                Option::None => {
                    if i + 1 < steps.len() {
                        let next_location = OperationBlock::location(parent, arm, i + 1);
                        self.push_error(
                            ValidationError::UnreachableProgramStep {
                                operation: self.operation_id.clone(),
                                location: next_location,
                            },
                        );
                    }
                    proof {
                        assert(flow_block(
                            *self.operation_id,
                            steps@,
                            i as int,
                            parent.label@,
                            *arm,
                            entry.0,
                            entry.1,
                        ) == (fallthrough_view(Option::<Availability>::None), self.flow()));
                    }
                    return Option::None;
                },
            }
            i += 1;
        }
        Option::Some(state)
    }

    /// One step analyzed: what holds after it, or nothing when it
    /// terminates every path through it.
    pub fn step(&mut self, step: &OperationStep, location: &StepLocation, state: Availability) -> (r:
        Option<Availability>)
        ensures
            final(self).operation_id == old(self).operation_id,
            (fallthrough_view(r), final(self).flow()) == flow_step(
                *old(self).operation_id,
                *step,
                location.label@,
                state@,
                old(self).flow(),
            ),
        decreases *step, 0nat, 0int,
    {
        let mut state = state;
        match step {
            OperationStep::Transaction(execution) => {
                let body = &execution.transaction;
                let consumer = ProgramUse::Transaction { transaction: body.id.clone() };
                match &body.idempotency {
                    IdempotencyGuarantee::DeduplicatedBy { key } => {
                        self.require_roots(&state, key.components.as_slice(), location, &consumer);
                    },
                    _ => {},
                }
                let ghost keyed = self.flow();
                let mut here = IdSet::new();
                let mut k: usize = 0;
                while k < body.steps.len()
                    invariant
                        k <= body.steps@.len(),
                        self.operation_id == old(self).operation_id,
                        here@ == established_here(body.steps@, k as nat),
                        self.flow() == require_body(
                            *self.operation_id,
                            keyed,
                            state@,
                            body.steps@,
                            k as nat,
                            location.label@,
                            consumer,
                        ),
                    decreases body.steps@.len() - k,
                {
                    let inner = &body.steps[k];
                    let roots = inner.roots();
                    let ghost before = self.flow();
                    let mut j: usize = 0;
                    while j < roots.len()
                        invariant
                            j <= roots@.len(),
                            self.operation_id == old(self).operation_id,
                            self.flow() == require_body_roots(
                                *self.operation_id,
                                before,
                                state@,
                                roots@,
                                j as nat,
                                location.label@,
                                consumer,
                                here@,
                            ),
                        decreases roots@.len() - j,
                    {
                        let root = &roots[j];
                        let skip = match &root.source {
                            ValueSource::TransactionOutput(output) => here.contains(output),
                            _ => false,
                        };
                        if !skip {
                            self.require(&state, root, location, &consumer);
                        }
                        j += 1;
                    }
                    match inner {
                        TransactionStep::EstablishTransactionOutput { bind, .. } => {
                            here.insert(bind.clone());
                        },
                        _ => {},
                    }
                    k += 1;
                }
                let entry = state.copy();
                proof {
                    assert(entry@.artifacts.union(established_by(body.steps@, 0)) =~= entry@.artifacts);
                }
                let mut k: usize = 0;
                while k < body.steps.len()
                    invariant
                        k <= body.steps@.len(),
                        state@ == (AvailabilityView {
                            artifacts: entry@.artifacts.union(established_by(body.steps@, k as nat)),
                            ..entry@
                        }),
                    decreases body.steps@.len() - k,
                {
                    let ghost before = state@;
                    match &body.steps[k] {
                        TransactionStep::EstablishTransactionOutput { bind, .. } => {
                            state.artifacts.insert(bind.clone());
                        },
                        TransactionStep::EstablishEffectIntent { bind, .. } => {
                            state.artifacts.insert(bind.clone());
                        },
                        TransactionStep::Transition { intents, .. } => {
                            let mut m: usize = 0;
                            proof {
                                assert(before.artifacts.union(
                                    Set::new(
                                        |text: Seq<char>|
                                            exists|i: int| 0 <= i < 0 && #[trigger] intents@[i]@ == text,
                                    ),
                                ) =~= before.artifacts);
                            }
                            while m < intents.len()
                                invariant
                                    m <= intents@.len(),
                                    state@ == (AvailabilityView {
                                        artifacts: before.artifacts.union(
                                            Set::new(
                                                |text: Seq<char>|
                                                    exists|i: int|
                                                        0 <= i < m && #[trigger] intents@[i]@ == text,
                                            ),
                                        ),
                                        ..before
                                    }),
                                decreases intents@.len() - m,
                            {
                                let ghost inner_before = state@;
                                state.artifacts.insert(intents[m].clone());
                                proof {
                                    assert(state@.artifacts =~= before.artifacts.union(
                                        Set::new(
                                            |text: Seq<char>|
                                                exists|i: int|
                                                    0 <= i < m + 1 && #[trigger] intents@[i]@ == text,
                                        ),
                                    ));
                                }
                                m += 1;
                            }
                            proof {
                                assert(Set::new(
                                    |text: Seq<char>|
                                        exists|i: int|
                                            0 <= i < intents@.len() && #[trigger] intents@[i]@ == text,
                                ) =~= Set::new(
                                    |text: Seq<char>|
                                        exists|i: int| 0 <= i < m && #[trigger] intents@[i]@ == text,
                                ));
                            }
                        },
                        _ => {},
                    }
                    proof {
                        assert(state@.artifacts =~= entry@.artifacts.union(
                            established_by(body.steps@, (k + 1) as nat),
                        ));
                    }
                    k += 1;
                }
                match &execution.rejected {
                    Option::Some(block) => {
                        let rejected = self.block(
                            &block.steps,
                            location,
                            &Option::Some(Arm::Rejected),
                            entry,
                        );
                        join(Option::Some(state), rejected)
                    },
                    Option::None => Option::Some(state),
                }
            },
            OperationStep::ExecuteEffect(s) => {
                let consumer = ProgramUse::Effect { effect: s.effect_id.clone() };
                self.require_roots(&state, s.values.roots(), location, &consumer);
                self.require_roots(&state, s.effect.references.as_slice(), location, &consumer);
                match &s.bind {
                    Option::Some(bind) => state.bound.insert(bind.clone()),
                    Option::None => {},
                }
                Option::Some(state)
            },
            OperationStep::ExecuteEffectIntent(s) => {
                if !state.artifacts.contains(&s.intent) {
                    let error = ValidationError::TransactionArtifactNotAvailable {
                        operation: self.operation_id.clone(),
                        location: location.clone(),
                        artifact: s.intent.clone(),
                        consumer: ProgramUse::EffectIntent { intent: s.intent.clone() },
                    };
                    self.report_once(location, &s.intent, error);
                }
                match &s.bind {
                    Option::Some(bind) => state.bound.insert(bind.clone()),
                    Option::None => {},
                }
                Option::Some(state)
            },
            OperationStep::ExecuteEffectAsync(s) => {
                let consumer = ProgramUse::Effect { effect: s.effect_id.clone() };
                self.require_roots(&state, s.values.roots(), location, &consumer);
                self.require_roots(&state, s.effect.references.as_slice(), location, &consumer);
                state.handles.insert(s.handle.clone());
                Option::Some(state)
            },
            OperationStep::ExecuteEffectIntentAsync(s) => {
                if !state.artifacts.contains(&s.intent) {
                    let error = ValidationError::TransactionArtifactNotAvailable {
                        operation: self.operation_id.clone(),
                        location: location.clone(),
                        artifact: s.intent.clone(),
                        consumer: ProgramUse::EffectIntent { intent: s.intent.clone() },
                    };
                    self.report_once(location, &s.intent, error);
                }
                state.handles.insert(s.handle.clone());
                Option::Some(state)
            },
            OperationStep::JoinAll(s) => {
                let mut handles: Vec<Id> = Vec::new();
                let mut i: usize = 0;
                while i < s.handles.len()
                    invariant
                        i <= s.handles@.len(),
                        handles@ == join_handles(s.handles@.take(i as int)),
                    decreases s.handles@.len() - i,
                {
                    handles.push(s.handles[i].handle.clone());
                    proof {
                        assert(join_handles(s.handles@.take(i + 1)) =~= join_handles(
                            s.handles@.take(i as int),
                        ).push(s.handles@[i as int].handle));
                    }
                    i += 1;
                }
                proof {
                    assert(s.handles@.take(s.handles@.len() as int) =~= s.handles@);
                }
                if handles.len() == 0 {
                    self.push_error(
                        ValidationError::EmptyJoinAll {
                            operation: self.operation_id.clone(),
                            location: location.clone(),
                        },
                    );
                }
                self.check_handles(&state, &handles, location, &ProgramUse::JoinAll);
                let ghost entry = state@;
                let mut i: usize = 0;
                while i < s.handles.len()
                    invariant
                        i <= s.handles@.len(),
                        state@ == bind_joins(entry, s.handles@, i as nat),
                    decreases s.handles@.len() - i,
                {
                    match &s.handles[i].bind {
                        Option::Some(bind) => state.bound.insert(bind.clone()),
                        Option::None => {},
                    }
                    i += 1;
                }
                Option::Some(state)
            },
            OperationStep::Race(s) => {
                if s.handles.len() < 2 {
                    self.push_error(
                        ValidationError::RaceRequiresTwoHandles {
                            operation: self.operation_id.clone(),
                            location: location.clone(),
                            count: s.handles.len(),
                        },
                    );
                }
                self.check_handles(&state, &s.handles, location, &ProgramUse::Race);
                match &s.bind {
                    Option::Some(bind) => state.bound.insert(bind.clone()),
                    Option::None => {},
                }
                Option::Some(state)
            },
            OperationStep::MatchResult(s) => {
                if !state.bound.contains(&s.result) {
                    self.push_error(
                        ValidationError::EffectResultNotBound {
                            operation: self.operation_id.clone(),
                            location: location.clone(),
                            result: s.result.clone(),
                            consumer: ProgramUse::Match,
                        },
                    );
                }
                let outer_ok = state.ok.contains(&s.result);
                let outer_err = state.err.contains(&s.result);
                let mut success_state = state.copy();
                success_state.ok.insert(s.result.clone());
                let mut failure_state = state;
                failure_state.err.insert(s.result.clone());
                let success = self.block(
                    &s.ok.steps,
                    location,
                    &Option::Some(Arm::Success),
                    success_state,
                );
                let ghost after_success = self.flow();
                let mut failures: Option<Availability> = Option::None;
                let mut i: usize = 0;
                while i < s.errors.len()
                    invariant
                        i <= s.errors@.len(),
                        *step == OperationStep::MatchResult(*s),
                        self.operation_id == old(self).operation_id,
                        (fallthrough_view(failures), self.flow()) == flow_arms(
                            *self.operation_id,
                            s.errors@,
                            i as nat,
                            location.label@,
                            failure_state@,
                            after_success,
                        ),
                    decreases s.errors@.len() - i,
                {
                    let arm = &s.errors[i];
                    proof {
                        assert(decreases_to!(*step => (*step)->MatchResult_0));
                        assert(decreases_to!(*s => s.errors));
                        assert(decreases_to!(s.errors => s.errors@));
                        assert(decreases_to!(s.errors@ => *arm));
                        assert(decreases_to!(*arm => arm.block));
                        assert(decreases_to!(arm.block => arm.block.steps));
                        assert(decreases_to!(arm.block.steps => arm.block.steps@));
                    }
                    let this = self.block(
                        &arm.block.steps,
                        location,
                        &Option::Some(Arm::Failure(arm.error.clone())),
                        failure_state.copy(),
                    );
                    failures = join(failures, this);
                    i += 1;
                }
                match join(success, failures) {
                    Option::Some(mut joined) => {
                        if !outer_ok {
                            joined.ok.remove(&s.result);
                        }
                        if !outer_err {
                            joined.err.remove(&s.result);
                        }
                        Option::Some(joined)
                    },
                    Option::None => Option::None,
                }
            },
            OperationStep::Branch(s) => {
                self.require_roots(&state, s.condition.roots(), location, &ProgramUse::Condition);
                let taken = self.block(
                    &s.then_block.steps,
                    location,
                    &Option::Some(Arm::Then),
                    state.copy(),
                );
                let other = match &s.otherwise {
                    Option::Some(block) => self.block(
                        &block.steps,
                        location,
                        &Option::Some(Arm::Otherwise),
                        state,
                    ),
                    Option::None => Option::Some(state),
                };
                join(taken, other)
            },
            OperationStep::Return(s) => {
                let consumer = ProgramUse::Return { request: s.request.clone() };
                self.require_roots(&state, s.outcome.values().roots(), location, &consumer);
                Option::None
            },
            OperationStep::Complete => Option::None,
        }
    }
}


/// Nothing found yet.
pub open spec fn fresh_flow() -> Flow {
    Flow { findings: Seq::empty(), reported: Set::empty() }
}

/// What validating one operation's program finds: the findings of the
/// analysis from the program's entry, and a final one when some path
/// falls through the program's end.
pub open spec fn program_findings(operation: Id, program: OperationBlock) -> Seq<Finding> {
    let analyzed = program_flow(operation, program);
    if analyzed.0 is Some {
        analyzed.1.findings.push(Finding::NotTerminated { operation })
    } else {
        analyzed.1.findings
    }
}

/// The analysis of a program from its entry, where nothing is
/// available.
pub open spec fn program_flow(operation: Id, program: OperationBlock) -> (
    Option<AvailabilityView>,
    Flow,
) {
    flow_block(
        operation,
        program.steps@,
        0,
        Seq::empty(),
        Option::None,
        nothing_available(),
        fresh_flow(),
    )
}

/// Whether some path through the program falls through its end.
pub open spec fn falls_through(operation: Id, program: OperationBlock) -> bool {
    program_flow(operation, program).0 is Some
}

/// The findings of the first `count` operations' programs, in turn.
pub open spec fn programs_findings(operations: Seq<(Id, Operation)>, count: nat) -> Seq<Finding>
    decreases count,
{
    if count == 0 || count > operations.len() {
        Seq::empty()
    } else {
        programs_findings(operations, (count - 1) as nat) + program_findings(
            operations[count - 1].0,
            operations[count - 1].1.program,
        )
    }
}

/// Validates one operation's program.
pub fn validate_program(operation_id: &Id, program: &OperationBlock) -> (errors: Vec<ValidationError>)
    ensures
        findings_of(errors@) == program_findings(*operation_id, *program),
{
    let mut validator = ProgramValidator {
        operation_id,
        errors: Vec::new(),
        reported: Vec::new(),
    };
    proof {
        assert(findings_of(validator.errors@) =~= Seq::empty());
        assert(pair_set(validator.reported@) =~= Set::empty());
        assert(validator.flow() == fresh_flow());
    }
    let root = StepLocation::root();
    let fallthrough = validator.block(&program.steps, &root, &Option::None, Availability::new());
    let mut errors = validator.errors;
    if fallthrough.is_some() {
        let ghost before = errors@;
        errors.push(ValidationError::ProgramNotTerminated { operation: operation_id.clone() });
        proof {
            assert(findings_of(errors@) =~= findings_of(before).push(
                Finding::NotTerminated { operation: *operation_id },
            ));
        }
    }
    errors
}

/// Validates every operation's program, in the model's order.
pub fn validate_programs(model: &Model) -> (errors: Vec<ValidationError>)
    ensures
        findings_of(errors@) == programs_findings(model.operations@, model.operations@.len()),
{
    let mut errors: Vec<ValidationError> = Vec::new();
    let mut i: usize = 0;
    while i < model.operations.len()
        invariant
            i <= model.operations@.len(),
            findings_of(errors@) == programs_findings(model.operations@, i as nat),
        decreases model.operations@.len() - i,
    {
        let (operation_id, operation) = &model.operations[i];
        let mut found = validate_program(operation_id, &operation.program);
        let ghost before = errors@;
        let ghost added = found@;
        errors.append(&mut found);
        proof {
            assert(findings_of(errors@) =~= findings_of(before) + findings_of(added));
        }
        i += 1;
    }
    errors
}


/// Variant payloads are local to the match arm that selects them: after
/// a result match, a payload is available only if it already was before
/// the match, even when every other arm terminates.
pub proof fn lemma_variant_payloads_are_arm_local(
    operation: Id,
    step: MatchResultStep,
    location: Seq<char>,
    state: AvailabilityView,
    flow: Flow,
)
    ensures
        flow_step(operation, OperationStep::MatchResult(step), location, state, flow).0 matches Option::Some(
            after,
        ) ==> {
            &&& after.ok.contains(step.result@) ==> state.ok.contains(step.result@)
            &&& after.err.contains(step.result@) ==> state.err.contains(step.result@)
        },
{
}

// Termination and the enumerated paths.

/// Whether some path among `paths` is open: it has no terminal.
pub open spec fn has_open<'a>(paths: Seq<Trace<'a>>) -> bool {
    exists|i: int| 0 <= i < paths.len() && (#[trigger] paths[i]).1 is Unterminated
}

proof fn lemma_has_open_concat<'a>(first: Seq<Trace<'a>>, second: Seq<Trace<'a>>)
    ensures
        has_open(first + second) == (has_open(first) || has_open(second)),
{
    if has_open(first + second) {
        let i = choose|i: int|
            0 <= i < (first + second).len() && (#[trigger] (first + second)[i]).1 is Unterminated;
        if i < first.len() {
            assert(first[i] == (first + second)[i]);
        } else {
            assert(second[i - first.len()] == (first + second)[i]);
        }
    }
    if has_open(first) {
        let i = choose|i: int| 0 <= i < first.len() && (#[trigger] first[i]).1 is Unterminated;
        assert((first + second)[i] == first[i]);
    }
    if has_open(second) {
        let i = choose|i: int| 0 <= i < second.len() && (#[trigger] second[i]).1 is Unterminated;
        assert((first + second)[first.len() + i] == second[i]);
    }
}

/// A step leaves some path open after it exactly when its analysis
/// falls through it, whatever the prefix, state and findings.
proof fn lemma_step_continues<'a>(
    prefix: Seq<Located<'a>>,
    step: &'a OperationStep,
    location: Seq<char>,
    operation: Id,
    state: AvailabilityView,
    flow: Flow,
)
    ensures
        has_open(step_outcomes(prefix, step, location)) == (flow_step(
            operation,
            *step,
            location,
            state,
            flow,
        ).0 is Some),
    decreases *step, 0nat, 0int, 0int,
{
    let outcomes = step_outcomes(prefix, step, location);
    match step {
        OperationStep::MatchResult(s) => {
            let success_flow = if state.bound.contains(s.result@) {
                flow
            } else {
                found(
                    flow,
                    Finding::ResultNotBound {
                        operation,
                        location,
                        result: s.result,
                        consumer: ProgramUse::Match,
                    },
                )
            };
            let success = flow_block(
                operation,
                s.ok.steps@,
                0,
                location,
                Option::Some(Arm::Success),
                AvailabilityView { ok: state.ok.insert(s.result@), ..state },
                success_flow,
            );
            lemma_match_continues(
                prefix,
                s,
                location,
                s.errors@.len() as int,
                operation,
                AvailabilityView { ok: state.ok.insert(s.result@), ..state },
                success_flow,
                AvailabilityView { err: state.err.insert(s.result@), ..state },
                success.1,
            );
        },
        OperationStep::Branch(s) => {
            let roots = condition_roots(s.condition);
            let checked = require_roots(
                operation,
                flow,
                state,
                roots,
                roots.len(),
                location,
                ProgramUse::Condition,
            );
            let taken = prefix.push(
                decision_at(location, Decision::Branch { condition: &s.condition, arm: Arm::Then }),
            );
            lemma_block_continues(
                taken,
                &s.then_block.steps,
                0,
                location,
                Option::Some(Arm::Then),
                operation,
                state,
                checked,
            );
            let first = flow_block(
                operation,
                s.then_block.steps@,
                0,
                location,
                Option::Some(Arm::Then),
                state,
                checked,
            );
            let then_paths = block_paths(
                taken,
                &s.then_block.steps,
                0,
                location,
                Option::Some(Arm::Then),
            );
            let otherwise = prefix.push(
                decision_at(
                    location,
                    Decision::Branch { condition: &s.condition, arm: Arm::Otherwise },
                ),
            );
            match &s.otherwise {
                Option::Some(block) => {
                    lemma_block_continues(
                        otherwise,
                        &block.steps,
                        0,
                        location,
                        Option::Some(Arm::Otherwise),
                        operation,
                        state,
                        first.1,
                    );
                    lemma_has_open_concat(
                        then_paths,
                        block_paths(
                            otherwise,
                            &block.steps,
                            0,
                            location,
                            Option::Some(Arm::Otherwise),
                        ),
                    );
                },
                Option::None => {
                    assert(outcomes[then_paths.len() as int].1 is Unterminated);
                },
            }
        },
        OperationStep::Return(_) => {
            assert(!has_open(outcomes)) by {
                assert(outcomes.len() == 1);
                assert(!(outcomes[0].1 is Unterminated));
            }
        },
        OperationStep::Complete => {
            assert(!has_open(outcomes)) by {
                assert(outcomes.len() == 1);
                assert(!(outcomes[0].1 is Unterminated));
            }
        },
        _ => {
            assert(outcomes[0].1 is Unterminated);
        },
    }
}

/// Some path is left open by a block from `from` on exactly when its
/// analysis falls through it.
proof fn lemma_block_continues<'a>(
    prefix: Seq<Located<'a>>,
    steps: &'a Vec<OperationStep>,
    from: int,
    parent: Seq<char>,
    arm: Option<Arm>,
    operation: Id,
    state: AvailabilityView,
    flow: Flow,
)
    ensures
        has_open(block_paths(prefix, steps, from, parent, arm)) == (flow_block(
            operation,
            steps@,
            from,
            parent,
            arm,
            state,
            flow,
        ).0 is Some),
    decreases steps@, 2nat, steps@.len() - from, 1int,
{
    if 0 <= from < steps@.len() {
        let location = child_location(parent, arm, from);
        assert(decreases_to!(steps@ => steps@[from]));
        lemma_step_continues(prefix, &steps@[from], location, operation, state, flow);
        let analyzed = flow_step(operation, steps@[from], location, state, flow);
        let next = match analyzed.0 {
            Option::Some(next) => next,
            Option::None => state,
        };
        lemma_continue_continues(
            step_outcomes(prefix, &steps@[from], location),
            steps,
            from + 1,
            parent,
            arm,
            operation,
            next,
            analyzed.1,
        );
    } else {
        assert(block_paths(prefix, steps, from, parent, arm)[0].1 is Unterminated);
    }
}

/// Carrying paths on through a block leaves one open exactly when one
/// of them was open and the block's analysis falls through.
proof fn lemma_continue_continues<'a>(
    paths: Seq<Trace<'a>>,
    steps: &'a Vec<OperationStep>,
    from: int,
    parent: Seq<char>,
    arm: Option<Arm>,
    operation: Id,
    state: AvailabilityView,
    flow: Flow,
)
    requires
        0 <= from <= steps@.len(),
    ensures
        has_open(continue_paths(paths, steps, from, parent, arm)) == (has_open(paths) && flow_block(
            operation,
            steps@,
            from,
            parent,
            arm,
            state,
            flow,
        ).0 is Some),
    decreases steps@, 2nat, steps@.len() - from, paths.len() + 2,
{
    if paths.len() > 0 {
        let first = paths[0];
        let head = if first.1 is Unterminated {
            block_paths(first.0, steps, from, parent, arm)
        } else {
            seq![first]
        };
        if first.1 is Unterminated {
            lemma_block_continues(first.0, steps, from, parent, arm, operation, state, flow);
        } else {
            assert(!has_open(head)) by {
                assert(head.len() == 1);
            }
        }
        lemma_continue_continues(paths.drop_first(), steps, from, parent, arm, operation, state, flow);
        lemma_has_open_concat(head, continue_paths(paths.drop_first(), steps, from, parent, arm));
        lemma_has_open_concat(seq![first], paths.drop_first());
        assert(seq![first] + paths.drop_first() =~= paths);
        if first.1 is Unterminated {
            assert((seq![first])[0].1 is Unterminated);
        } else {
            assert(!has_open(seq![first])) by {
                assert(seq![first].len() == 1);
            }
        }
    }
}

/// Some path is left open after the first `count` arms of a match, the
/// success arm included, exactly when the analysis of one of them falls
/// through.
proof fn lemma_match_continues<'a>(
    prefix: Seq<Located<'a>>,
    step: &'a MatchResultStep,
    location: Seq<char>,
    count: int,
    operation: Id,
    success_state: AvailabilityView,
    success_flow: Flow,
    failure_state: AvailabilityView,
    failure_flow: Flow,
)
    requires
        0 <= count <= step.errors@.len(),
    ensures
        has_open(match_outcomes(prefix, step, location, count)) == (flow_block(
            operation,
            step.ok.steps@,
            0,
            location,
            Option::Some(Arm::Success),
            success_state,
            success_flow,
        ).0 is Some || flow_arms(
            operation,
            step.errors@,
            count as nat,
            location,
            failure_state,
            failure_flow,
        ).0 is Some),
    decreases *step, 3nat, count, 0int,
{
    if count == 0 {
        let taken = prefix.push(
            decision_at(location, Decision::Match { result: &step.result, arm: ResultArm::Success }),
        );
        lemma_block_continues(
            taken,
            &step.ok.steps,
            0,
            location,
            Option::Some(Arm::Success),
            operation,
            success_state,
            success_flow,
        );
    } else {
        lemma_match_continues(
            prefix,
            step,
            location,
            count - 1,
            operation,
            success_state,
            success_flow,
            failure_state,
            failure_flow,
        );
        let arm: &'a ErrorArm = &step.errors@[count - 1];
        let earlier = flow_arms(
            operation,
            step.errors@,
            (count - 1) as nat,
            location,
            failure_state,
            failure_flow,
        );
        let taken = prefix.push(
            decision_at(
                location,
                Decision::Match { result: &step.result, arm: ResultArm::Failure(arm.error) },
            ),
        );
        assert(decreases_to!(step.errors@ => step.errors@[count - 1]));
        lemma_block_continues(
            taken,
            &arm.block.steps,
            0,
            location,
            Option::Some(Arm::Failure(arm.error)),
            operation,
            failure_state,
            earlier.1,
        );
        lemma_has_open_concat(
            match_outcomes(prefix, step, location, count - 1),
            block_paths(taken, &arm.block.steps, 0, location, Option::Some(Arm::Failure(arm.error))),
        );
    }
}

/// A program's validation reports that it is not terminated exactly
/// when some path the path enumeration yields for it ends unterminated.
pub proof fn lemma_not_terminated_iff_unterminated_path(operation: Id, program: &OperationBlock)
    ensures
        falls_through(operation, *program) <==> exists|i: int|
            0 <= i < program_paths(program).len() && #[trigger] program_paths(program)[i].1
                is Unterminated,
{
    lemma_block_continues(
        Seq::empty(),
        &program.steps,
        0,
        Seq::empty(),
        Option::None,
        operation,
        nothing_available(),
        fresh_flow(),
    );
}


// Definite availability and the enumerated paths.

/// Whether a step of a path establishes `artifact`: a committed
/// transaction whose body establishes or recovers it.
pub open spec fn establishes<'a>(step: Located<'a>, artifact: Seq<char>) -> bool {
    match step.1 {
        StepKind::Transaction { transaction } => established_by(
            transaction.steps@,
            transaction.steps@.len(),
        ).contains(artifact),
        _ => false,
    }
}

/// The artifacts the steps of a path establish.
pub open spec fn established_along<'a>(steps: Seq<Located<'a>>) -> Set<Seq<char>> {
    Set::new(
        |artifact: Seq<char>|
            exists|i: int| 0 <= i < steps.len() && #[trigger] establishes(steps[i], artifact),
    )
}

/// The artifacts every open path among `paths` has established: what
/// is definitely available where those paths go on.
pub open spec fn established_on_every_open<'a>(paths: Seq<Trace<'a>>) -> Set<Seq<char>> {
    Set::new(
        |artifact: Seq<char>|
            forall|i: int|
                0 <= i < paths.len() && (#[trigger] paths[i]).1 is Unterminated
                    ==> established_along(paths[i].0).contains(artifact),
    )
}

proof fn lemma_along_concat<'a>(first: Seq<Located<'a>>, second: Seq<Located<'a>>)
    ensures
        established_along(first + second) == established_along(first).union(
            established_along(second),
        ),
{
    assert forall|artifact: Seq<char>|
        established_along(first + second).contains(artifact) <==> established_along(first).union(
            established_along(second),
        ).contains(artifact) by {
        if established_along(first + second).contains(artifact) {
            let i = choose|i: int|
                0 <= i < (first + second).len() && #[trigger] establishes((first + second)[i], artifact);
            if i < first.len() {
                assert(first[i] == (first + second)[i]);
            } else {
                assert(second[i - first.len()] == (first + second)[i]);
            }
        }
        if established_along(first).contains(artifact) {
            let i = choose|i: int| 0 <= i < first.len() && #[trigger] establishes(first[i], artifact);
            assert((first + second)[i] == first[i]);
        }
        if established_along(second).contains(artifact) {
            let i = choose|i: int| 0 <= i < second.len() && #[trigger] establishes(second[i], artifact);
            assert((first + second)[first.len() + i] == second[i]);
        }
    }
    assert(established_along(first + second) =~= established_along(first).union(
        established_along(second),
    ));
}

proof fn lemma_along_single<'a>(step: Located<'a>)
    ensures
        established_along(Seq::<Located<'a>>::empty().push(step)) == Set::new(
            |artifact: Seq<char>| establishes(step, artifact),
        ),
{
    let steps = Seq::<Located<'a>>::empty().push(step);
    assert forall|artifact: Seq<char>| established_along(steps).contains(artifact) <==> establishes(step, artifact) by {
        if establishes(step, artifact) {
            assert(establishes(steps[0], artifact));
        }
    }
    assert(established_along(steps) =~= Set::new(|artifact: Seq<char>| establishes(step, artifact)));
}

proof fn lemma_every_open_concat<'a>(first: Seq<Trace<'a>>, second: Seq<Trace<'a>>)
    ensures
        established_on_every_open(first + second) == established_on_every_open(first).intersect(
            established_on_every_open(second),
        ),
{
    assert forall|artifact: Seq<char>|
        established_on_every_open(first + second).contains(artifact) <==> established_on_every_open(
            first,
        ).intersect(established_on_every_open(second)).contains(artifact) by {
        if established_on_every_open(first + second).contains(artifact) {
            assert forall|i: int| 0 <= i < first.len() && (#[trigger] first[i]).1 is Unterminated
                implies established_along(first[i].0).contains(artifact) by {
                assert((first + second)[i] == first[i]);
            }
            assert forall|i: int| 0 <= i < second.len() && (#[trigger] second[i]).1 is Unterminated
                implies established_along(second[i].0).contains(artifact) by {
                assert((first + second)[first.len() + i] == second[i]);
            }
        }
        if established_on_every_open(first).contains(artifact) && established_on_every_open(
            second,
        ).contains(artifact) {
            assert forall|i: int|
                0 <= i < (first + second).len() && (#[trigger] (first + second)[i]).1 is Unterminated
                    implies established_along((first + second)[i].0).contains(artifact) by {
                if i < first.len() {
                    assert((first + second)[i] == first[i]);
                } else {
                    assert((first + second)[i] == second[i - first.len()]);
                }
            }
        }
    }
    assert(established_on_every_open(first + second) =~= established_on_every_open(first).intersect(
        established_on_every_open(second),
    ));
}

proof fn lemma_every_open_prepend<'a>(prefix: Seq<Located<'a>>, paths: Seq<Trace<'a>>)
    ensures
        established_on_every_open(prepend(prefix, paths)) == established_along(prefix).union(
            established_on_every_open(paths),
        ),
{
    let moved = prepend(prefix, paths);
    assert forall|i: int| 0 <= i < paths.len() implies #[trigger] established_along(moved[i].0)
        == established_along(prefix).union(established_along(paths[i].0)) by {
        lemma_along_concat(prefix, paths[i].0);
    }
    assert forall|artifact: Seq<char>|
        established_on_every_open(moved).contains(artifact) <==> established_along(prefix).union(
            established_on_every_open(paths),
        ).contains(artifact) by {
        if established_on_every_open(moved).contains(artifact) && !established_along(
            prefix,
        ).contains(artifact) {
            assert forall|i: int| 0 <= i < paths.len() && (#[trigger] paths[i]).1 is Unterminated
                implies established_along(paths[i].0).contains(artifact) by {
                assert(moved[i].1 is Unterminated);
                assert(established_along(moved[i].0).contains(artifact));
            }
        }
        if established_along(prefix).union(established_on_every_open(paths)).contains(artifact) {
            assert forall|i: int| 0 <= i < moved.len() && (#[trigger] moved[i]).1 is Unterminated
                implies established_along(moved[i].0).contains(artifact) by {
                assert(paths[i].1 is Unterminated);
                assert(established_along(moved[i].0) == established_along(prefix).union(
                    established_along(paths[i].0),
                ));
            }
        }
    }
    assert(established_on_every_open(moved) =~= established_along(prefix).union(
        established_on_every_open(paths),
    ));
}

proof fn lemma_every_open_none<'a>(paths: Seq<Trace<'a>>)
    requires
        !has_open(paths),
    ensures
        established_on_every_open(paths) == Set::<Seq<char>>::full(),
{
    assert forall|artifact: Seq<char>| established_on_every_open(paths).contains(artifact) by {
        assert forall|i: int| 0 <= i < paths.len() && (#[trigger] paths[i]).1 is Unterminated
            implies established_along(paths[i].0).contains(artifact) by {
            assert(has_open(paths));
        }
    }
    assert(established_on_every_open(paths) =~= Set::<Seq<char>>::full());
}

/// The artifacts two joined predecessors guarantee: the join of states
/// that each hold their entry artifacts and what every path reaching
/// them established holds the entry artifacts and what every path
/// reaching either established.
proof fn lemma_join_artifacts<'a>(
    first: Option<AvailabilityView>,
    second: Option<AvailabilityView>,
    base: Set<Seq<char>>,
    first_paths: Seq<Trace<'a>>,
    second_paths: Seq<Trace<'a>>,
)
    requires
        first matches Option::Some(s) ==> s.artifacts == base.union(
            established_on_every_open(first_paths),
        ),
        first is None ==> established_on_every_open(first_paths) == Set::<Seq<char>>::full(),
        second matches Option::Some(s) ==> s.artifacts == base.union(
            established_on_every_open(second_paths),
        ),
        second is None ==> established_on_every_open(second_paths) == Set::<Seq<char>>::full(),
    ensures
        join_view(first, second) matches Option::Some(s) ==> s.artifacts == base.union(
            established_on_every_open(first_paths + second_paths),
        ),
        join_view(first, second) is None ==> established_on_every_open(first_paths + second_paths)
            == Set::<Seq<char>>::full(),
{
    lemma_every_open_concat(first_paths, second_paths);
    let a = established_on_every_open(first_paths);
    let b = established_on_every_open(second_paths);
    match (first, second) {
        (Option::Some(x), Option::Some(y)) => {
            assert(x.artifacts.intersect(y.artifacts) =~= base.union(a.intersect(b)));
        },
        (Option::Some(x), Option::None) => {
            assert(a.intersect(b) =~= a);
        },
        (Option::None, Option::Some(y)) => {
            assert(a.intersect(b) =~= b);
        },
        (Option::None, Option::None) => {
            assert(a.intersect(b) =~= Set::<Seq<char>>::full());
        },
    }
}

proof fn lemma_bind_joins_keeps_artifacts(state: AvailabilityView, joins: Seq<AsyncJoin>, count: nat)
    ensures
        bind_joins(state, joins, count).artifacts == state.artifacts,
    decreases count,
{
    if count > 0 && count <= joins.len() {
        lemma_bind_joins_keeps_artifacts(state, joins, (count - 1) as nat);
    }
}

/// Carrying paths on through a block: what every open path then
/// establishes is what every open path had, together with what every
/// open path through the rest of the block establishes.
proof fn lemma_every_open_continue<'a>(
    paths: Seq<Trace<'a>>,
    steps: &'a Vec<OperationStep>,
    from: int,
    parent: Seq<char>,
    arm: Option<Arm>,
)
    requires
        0 <= from <= steps@.len(),
    ensures
        established_on_every_open(continue_paths(paths, steps, from, parent, arm))
            == established_on_every_open(paths).union(
            established_on_every_open(block_paths(Seq::empty(), steps, from, parent, arm)),
        ),
    decreases paths.len(),
{
    let rest_block = established_on_every_open(block_paths(Seq::empty(), steps, from, parent, arm));
    if paths.len() == 0 {
        assert(established_on_every_open(paths) =~= Set::<Seq<char>>::full());
        assert(Set::<Seq<char>>::full().union(rest_block) =~= Set::<Seq<char>>::full());
    } else {
        let first = paths[0];
        let tail = paths.drop_first();
        lemma_every_open_continue(tail, steps, from, parent, arm);
        let rest = continue_paths(tail, steps, from, parent, arm);
        assert(seq![first] + tail =~= paths);
        lemma_every_open_concat(seq![first], tail);
        if first.1 is Unterminated {
            lemma_block_paths_prefix(first.0, steps, from, parent, arm);
            let head = block_paths(first.0, steps, from, parent, arm);
            lemma_every_open_prepend(first.0, block_paths(Seq::empty(), steps, from, parent, arm));
            lemma_every_open_concat(head, rest);
            assert(established_on_every_open(seq![first]) =~= established_along(first.0)) by {
                assert(seq![first][0] == first);
            }
            let along = established_along(first.0);
            let others = established_on_every_open(tail);
            assert(along.union(rest_block).intersect(others.union(rest_block)) =~= along.intersect(
                others,
            ).union(rest_block));
        } else {
            let head = seq![first];
            lemma_every_open_concat(head, rest);
            assert(established_on_every_open(head) =~= Set::<Seq<char>>::full()) by {
                assert(head[0] == first);
            }
            let others = established_on_every_open(tail);
            assert(Set::<Seq<char>>::full().intersect(others.union(rest_block)) =~= Set::<
                Seq<char>,
            >::full().intersect(others).union(rest_block));
        }
    }
}

/// One step: the artifacts after it are those before it together with
/// what every path it lets go on establishes at it.
proof fn lemma_step_availability<'a>(
    step: &'a OperationStep,
    location: Seq<char>,
    operation: Id,
    state: AvailabilityView,
    flow: Flow,
)
    ensures
        flow_step(operation, *step, location, state, flow).0 matches Option::Some(next)
            ==> next.artifacts == state.artifacts.union(
            established_on_every_open(step_outcomes(Seq::empty(), step, location)),
        ),
        flow_step(operation, *step, location, state, flow).0 is None ==> established_on_every_open(
            step_outcomes(Seq::empty(), step, location),
        ) == Set::<Seq<char>>::full(),
    decreases *step, 0nat, 0int, 0int,
{
    let empty = Seq::<Located<'a>>::empty();
    let outcomes = step_outcomes(empty, step, location);
    lemma_step_continues(empty, step, location, operation, state, flow);
    if flow_step(operation, *step, location, state, flow).0 is None {
        lemma_every_open_none(outcomes);
    }
    match step {
        OperationStep::Transaction(execute) => {
            let kind = StepKind::Transaction { transaction: &execute.transaction };
            let body = execute.transaction;
            let established = established_by(body.steps@, body.steps@.len());
            lemma_along_single(step_at(location, kind));
            assert(Set::new(|artifact: Seq<char>| establishes(step_at(location, kind), artifact))
                =~= established);
            match &execute.rejected {
                Option::None => {
                    assert(established_on_every_open(outcomes) =~= established_along(
                        empty.push(step_at(location, kind)),
                    )) by {
                        assert(outcomes[0].1 is Unterminated);
                    }
                },
                Option::Some(rejected) => {
                    let committed = decision_at(
                        location,
                        Decision::Transaction {
                            transaction: &execute.transaction.id,
                            outcome: TransactionOutcome::Committed,
                        },
                    );
                    let refused = decision_at(
                        location,
                        Decision::Transaction {
                            transaction: &execute.transaction.id,
                            outcome: TransactionOutcome::Rejected,
                        },
                    );
                    let committed_path = empty.push(step_at(location, kind)).push(committed);
                    lemma_along_single(committed);
                    assert(Set::new(|artifact: Seq<char>| establishes(committed, artifact))
                        =~= Set::<Seq<char>>::empty());
                    assert(committed_path =~= empty.push(step_at(location, kind)) + empty.push(
                        committed,
                    ));
                    lemma_along_concat(empty.push(step_at(location, kind)), empty.push(committed));
                    assert(established_along(committed_path) =~= established);
                    let inner = block_paths(empty, &rejected.steps, 0, location, Option::Some(Arm::Rejected));
                    lemma_block_paths_prefix(
                        empty.push(refused),
                        &rejected.steps,
                        0,
                        location,
                        Option::Some(Arm::Rejected),
                    );
                    lemma_every_open_prepend(empty.push(refused), inner);
                    lemma_along_single(refused);
                    assert(Set::new(|artifact: Seq<char>| establishes(refused, artifact))
                        =~= Set::<Seq<char>>::empty());
                    assert(Set::<Seq<char>>::empty().union(established_on_every_open(inner))
                        =~= established_on_every_open(inner));
                    let head = seq![(committed_path, TerminalAt::Unterminated)];
                    assert(established_on_every_open(head) =~= established) by {
                        assert(head[0].1 is Unterminated);
                    }
                    lemma_every_open_concat(head, prepend(empty.push(refused), inner));
                    let consumer = ProgramUse::Transaction { transaction: body.id };
                    let keyed = match body.idempotency {
                        IdempotencyGuarantee::DeduplicatedBy { key } => require_roots(
                            operation,
                            flow,
                            state,
                            key.components@,
                            key.components@.len(),
                            location,
                            consumer,
                        ),
                        _ => flow,
                    };
                    let checked = require_body(
                        operation,
                        keyed,
                        state,
                        body.steps@,
                        body.steps@.len(),
                        location,
                        consumer,
                    );
                    lemma_block_availability(
                        &rejected.steps,
                        0,
                        location,
                        Option::Some(Arm::Rejected),
                        operation,
                        state,
                        checked,
                    );
                    lemma_join_artifacts(
                        Option::Some(AvailabilityView { artifacts: state.artifacts.union(established), ..state }),
                        flow_block(
                            operation,
                            rejected.steps@,
                            0,
                            location,
                            Option::Some(Arm::Rejected),
                            state,
                            checked,
                        ).0,
                        state.artifacts,
                        head,
                        inner,
                    );
                    assert(state.artifacts.union(established).intersect(
                        Set::<Seq<char>>::full(),
                    ) =~= state.artifacts.union(established));
                },
            }
        },
        OperationStep::MatchResult(s) => {
            let success_flow = if state.bound.contains(s.result@) {
                flow
            } else {
                found(
                    flow,
                    Finding::ResultNotBound {
                        operation,
                        location,
                        result: s.result,
                        consumer: ProgramUse::Match,
                    },
                )
            };
            let success_state = AvailabilityView { ok: state.ok.insert(s.result@), ..state };
            let success = flow_block(
                operation,
                s.ok.steps@,
                0,
                location,
                Option::Some(Arm::Success),
                success_state,
                success_flow,
            );
            lemma_match_availability(
                s,
                location,
                s.errors@.len() as int,
                operation,
                state.artifacts,
                success_state,
                success_flow,
                AvailabilityView { err: state.err.insert(s.result@), ..state },
                success.1,
            );
        },
        OperationStep::Branch(s) => {
            let roots = condition_roots(s.condition);
            let checked = require_roots(
                operation,
                flow,
                state,
                roots,
                roots.len(),
                location,
                ProgramUse::Condition,
            );
            let taken = decision_at(location, Decision::Branch { condition: &s.condition, arm: Arm::Then });
            let other = decision_at(
                location,
                Decision::Branch { condition: &s.condition, arm: Arm::Otherwise },
            );
            lemma_along_single(taken);
            assert(Set::new(|artifact: Seq<char>| establishes(taken, artifact))
                =~= Set::<Seq<char>>::empty());
            lemma_along_single(other);
            assert(Set::new(|artifact: Seq<char>| establishes(other, artifact))
                =~= Set::<Seq<char>>::empty());
            let then_paths = block_paths(empty, &s.then_block.steps, 0, location, Option::Some(Arm::Then));
            lemma_block_paths_prefix(empty.push(taken), &s.then_block.steps, 0, location, Option::Some(Arm::Then));
            lemma_every_open_prepend(empty.push(taken), then_paths);
            assert(Set::<Seq<char>>::empty().union(established_on_every_open(then_paths))
                =~= established_on_every_open(then_paths));
            lemma_block_availability(
                &s.then_block.steps,
                0,
                location,
                Option::Some(Arm::Then),
                operation,
                state,
                checked,
            );
            let first = flow_block(
                operation,
                s.then_block.steps@,
                0,
                location,
                Option::Some(Arm::Then),
                state,
                checked,
            );
            let firsts = prepend(empty.push(taken), then_paths);
            match &s.otherwise {
                Option::Some(block) => {
                    let else_paths = block_paths(empty, &block.steps, 0, location, Option::Some(Arm::Otherwise));
                    lemma_block_paths_prefix(empty.push(other), &block.steps, 0, location, Option::Some(Arm::Otherwise));
                    lemma_every_open_prepend(empty.push(other), else_paths);
                    assert(Set::<Seq<char>>::empty().union(established_on_every_open(else_paths))
                        =~= established_on_every_open(else_paths));
                    lemma_block_availability(
                        &block.steps,
                        0,
                        location,
                        Option::Some(Arm::Otherwise),
                        operation,
                        state,
                        first.1,
                    );
                    lemma_join_artifacts(
                        first.0,
                        flow_block(
                            operation,
                            block.steps@,
                            0,
                            location,
                            Option::Some(Arm::Otherwise),
                            state,
                            first.1,
                        ).0,
                        state.artifacts,
                        firsts,
                        prepend(empty.push(other), else_paths),
                    );
                },
                Option::None => {
                    let tail = seq![(empty.push(other), TerminalAt::Unterminated)];
                    assert(established_on_every_open(tail) =~= Set::<Seq<char>>::empty()) by {
                        assert(tail[0].1 is Unterminated);
                    }
                    assert(state.artifacts.union(Set::<Seq<char>>::empty()) =~= state.artifacts);
                    assert(firsts.push((empty.push(other), TerminalAt::Unterminated)) =~= firsts + tail);
                    lemma_join_artifacts(first.0, Option::Some(state), state.artifacts, firsts, tail);
                },
            }
        },
        OperationStep::JoinAll(s) => {
            lemma_bind_joins_keeps_artifacts(state, s.handles@, s.handles@.len());
            lemma_single_step_establishes_nothing(step, location);
        },
        OperationStep::Return(_) => {},
        OperationStep::Complete => {},
        _ => {
            lemma_single_step_establishes_nothing(step, location);
        },
    }
}

/// A step that neither branches nor commits leaves one open path that
/// establishes nothing.
proof fn lemma_single_step_establishes_nothing<'a>(step: &'a OperationStep, location: Seq<char>)
    requires
        step is ExecuteEffect || step is ExecuteEffectIntent || step is ExecuteEffectAsync
            || step is ExecuteEffectIntentAsync || step is JoinAll || step is Race,
    ensures
        established_on_every_open(step_outcomes(Seq::empty(), step, location)) == Set::<
            Seq<char>,
        >::empty(),
{
    let outcomes = step_outcomes(Seq::empty(), step, location);
    assert(outcomes.len() == 1 && outcomes[0].1 is Unterminated);
    assert(outcomes[0].0.len() == 1);
    lemma_along_single(outcomes[0].0[0]);
    assert(outcomes[0].0 =~= Seq::<Located<'a>>::empty().push(outcomes[0].0[0]));
    assert(established_along(outcomes[0].0) =~= Set::<Seq<char>>::empty());
    assert(established_on_every_open(outcomes) =~= Set::<Seq<char>>::empty());
}

/// The arms of a match, joined: the artifacts after the first `count`
/// error arms and the success arm are the entry artifacts together with
/// what every path going on from them established.
proof fn lemma_match_availability<'a>(
    step: &'a MatchResultStep,
    location: Seq<char>,
    count: int,
    operation: Id,
    base: Set<Seq<char>>,
    success_state: AvailabilityView,
    success_flow: Flow,
    failure_state: AvailabilityView,
    failure_flow: Flow,
)
    requires
        0 <= count <= step.errors@.len(),
        success_state.artifacts == base,
        failure_state.artifacts == base,
    ensures
        ({
            let joined = join_view(
                flow_block(
                    operation,
                    step.ok.steps@,
                    0,
                    location,
                    Option::Some(Arm::Success),
                    success_state,
                    success_flow,
                ).0,
                flow_arms(operation, step.errors@, count as nat, location, failure_state, failure_flow).0,
            );
            &&& joined matches Option::Some(s) ==> s.artifacts == base.union(
                established_on_every_open(match_outcomes(Seq::empty(), step, location, count)),
            )
            &&& joined is None ==> established_on_every_open(
                match_outcomes(Seq::empty(), step, location, count),
            ) == Set::<Seq<char>>::full()
        }),
    decreases *step, 3nat, count, 0int,
{
    let empty = Seq::<Located<'a>>::empty();
    let ok_taken = decision_at(location, Decision::Match { result: &step.result, arm: ResultArm::Success });
    let ok_paths = block_paths(empty, &step.ok.steps, 0, location, Option::Some(Arm::Success));
    lemma_block_paths_prefix(empty.push(ok_taken), &step.ok.steps, 0, location, Option::Some(Arm::Success));
    lemma_every_open_prepend(empty.push(ok_taken), ok_paths);
    lemma_along_single(ok_taken);
    assert(Set::new(|artifact: Seq<char>| establishes(ok_taken, artifact)) =~= Set::<Seq<char>>::empty());
    assert(Set::<Seq<char>>::empty().union(established_on_every_open(ok_paths))
        =~= established_on_every_open(ok_paths));
    lemma_block_availability(
        &step.ok.steps,
        0,
        location,
        Option::Some(Arm::Success),
        operation,
        success_state,
        success_flow,
    );
    let success = flow_block(
        operation,
        step.ok.steps@,
        0,
        location,
        Option::Some(Arm::Success),
        success_state,
        success_flow,
    ).0;
    if count == 0 {
        assert(join_view(success, Option::None) == success);
    } else {
        lemma_match_availability(
            step,
            location,
            count - 1,
            operation,
            base,
            success_state,
            success_flow,
            failure_state,
            failure_flow,
        );
        let arm: &'a ErrorArm = &step.errors@[count - 1];
        assert(decreases_to!(step.errors@ => step.errors@[count - 1]));
        let which = Option::Some(Arm::Failure(arm.error));
        let taken = decision_at(
            location,
            Decision::Match { result: &step.result, arm: ResultArm::Failure(arm.error) },
        );
        let earlier = flow_arms(operation, step.errors@, (count - 1) as nat, location, failure_state, failure_flow);
        let arm_paths = block_paths(empty, &arm.block.steps, 0, location, which);
        lemma_block_paths_prefix(empty.push(taken), &arm.block.steps, 0, location, which);
        lemma_every_open_prepend(empty.push(taken), arm_paths);
        lemma_along_single(taken);
        assert(Set::new(|artifact: Seq<char>| establishes(taken, artifact)) =~= Set::<Seq<char>>::empty());
        assert(Set::<Seq<char>>::empty().union(established_on_every_open(arm_paths))
            =~= established_on_every_open(arm_paths));
        lemma_block_availability(
            &arm.block.steps,
            0,
            location,
            which,
            operation,
            failure_state,
            earlier.1,
        );
        let this = flow_block(operation, arm.block.steps@, 0, location, which, failure_state, earlier.1).0;
        let before = join_view(success, earlier.0);
        lemma_join_artifacts(
            before,
            this,
            base,
            match_outcomes(empty, step, location, count - 1),
            prepend(empty.push(taken), arm_paths),
        );
        // Joining is associative in what it keeps.
        let after = join_view(success, join_view(earlier.0, this));
        let regrouped = join_view(before, this);
        assert(after is Some <==> regrouped is Some);
        if after is Some {
            assert(after.unwrap().artifacts =~= regrouped.unwrap().artifacts);
        }
    }
}

/// The artifacts where a block falls through are those it was entered
/// with together with what every path falling through it establishes:
/// what a path through the block can rely on is exactly what every
/// such path, from the block's entry, has committed.
pub proof fn lemma_block_availability<'a>(
    steps: &'a Vec<OperationStep>,
    from: int,
    parent: Seq<char>,
    arm: Option<Arm>,
    operation: Id,
    state: AvailabilityView,
    flow: Flow,
)
    ensures
        flow_block(operation, steps@, from, parent, arm, state, flow).0 matches Option::Some(end)
            ==> end.artifacts == state.artifacts.union(
            established_on_every_open(block_paths(Seq::empty(), steps, from, parent, arm)),
        ),
        flow_block(operation, steps@, from, parent, arm, state, flow).0 is None
            ==> established_on_every_open(block_paths(Seq::empty(), steps, from, parent, arm))
            == Set::<Seq<char>>::full(),
    decreases steps@, 2nat, steps@.len() - from, 1int,
{
    let empty = Seq::<Located<'a>>::empty();
    let paths = block_paths(empty, steps, from, parent, arm);
    lemma_block_continues(empty, steps, from, parent, arm, operation, state, flow);
    if flow_block(operation, steps@, from, parent, arm, state, flow).0 is None {
        lemma_every_open_none(paths);
    }
    if 0 <= from < steps@.len() {
        let location = child_location(parent, arm, from);
        assert(decreases_to!(steps@ => steps@[from]));
        lemma_step_availability(&steps@[from], location, operation, state, flow);
        let analyzed = flow_step(operation, steps@[from], location, state, flow);
        let outcomes = step_outcomes(empty, &steps@[from], location);
        lemma_every_open_continue(outcomes, steps, from + 1, parent, arm);
        if let Option::Some(next) = analyzed.0 {
            lemma_block_availability(steps, from + 1, parent, arm, operation, next, analyzed.1);
            let mid = established_on_every_open(outcomes);
            let rest = established_on_every_open(block_paths(empty, steps, from + 1, parent, arm));
            assert(state.artifacts.union(mid).union(rest) =~= state.artifacts.union(mid.union(rest)));
        }
    } else {
        let only = seq![(empty, TerminalAt::Unterminated)];
        assert(established_along(empty) =~= Set::<Seq<char>>::empty());
        assert(established_on_every_open(paths) =~= Set::<Seq<char>>::empty()) by {
            assert(paths == only);
            assert(only[0].1 is Unterminated);
        }
        assert(state.artifacts.union(Set::<Seq<char>>::empty()) =~= state.artifacts);
    }
}

/// What is definitely available where a program falls through its end
/// is exactly what every path reaching that end has established: an
/// artifact is available there if and only if each such path commits a
/// transaction that establishes or recovers it.
pub proof fn lemma_availability_is_established_on_every_path(operation: Id, program: &OperationBlock)
    ensures
        program_flow(operation, *program).0 matches Option::Some(end) ==> end.artifacts
            == established_on_every_open(program_paths(program)),
{
    lemma_block_availability(
        &program.steps,
        0,
        Seq::empty(),
        Option::None,
        operation,
        nothing_available(),
        fresh_flow(),
    );
    assert(Set::<Seq<char>>::empty().union(established_on_every_open(program_paths(program)))
        =~= established_on_every_open(program_paths(program)));
}


/// An effect-executing step never ends a path, and after it the result
/// binding it declares is bound, besides everything bound before it.
pub proof fn lemma_effect_steps_bind_their_results(
    operation: Id,
    step: OperationStep,
    location: Seq<char>,
    state: AvailabilityView,
    flow: Flow,
    bind: Id,
)
    requires
        result_binding(step) == Option::Some(bind),
    ensures
        flow_step(operation, step, location, state, flow).0 is Some,
        flow_step(operation, step, location, state, flow).0.unwrap().bound.contains(bind@),
        state.bound.subset_of(flow_step(operation, step, location, state, flow).0.unwrap().bound),
{
}


proof fn lemma_bind_joins_binds(state: AvailabilityView, joins: Seq<AsyncJoin>, count: nat, m: int, bind: Id)
    requires
        0 <= m < count <= joins.len(),
        joins[m].bind == Option::Some(bind),
    ensures
        bind_joins(state, joins, count).bound.contains(bind@),
    decreases count,
{
    if m < count - 1 {
        lemma_bind_joins_binds(state, joins, (count - 1) as nat, m, bind);
    }
}

proof fn lemma_bind_joins_keeps_bound(state: AvailabilityView, joins: Seq<AsyncJoin>, count: nat)
    ensures
        state.bound.subset_of(bind_joins(state, joins, count).bound),
    decreases count,
{
    if count > 0 && count <= joins.len() {
        lemma_bind_joins_keeps_bound(state, joins, (count - 1) as nat);
    }
}

/// An async launch never ends a path, and after it the handle it
/// launches is available; a `join_all` binds the result of every
/// handle it joins with a binding, and a `race` binds its own.
pub proof fn lemma_async_steps_provide_handles_and_bindings(
    operation: Id,
    step: OperationStep,
    location: Seq<char>,
    state: AvailabilityView,
    flow: Flow,
)
    ensures
        step matches OperationStep::ExecuteEffectAsync(s) ==> flow_step(
            operation,
            step,
            location,
            state,
            flow,
        ).0 matches Option::Some(next) && next.handles.contains(s.handle@),
        step matches OperationStep::ExecuteEffectIntentAsync(s) ==> flow_step(
            operation,
            step,
            location,
            state,
            flow,
        ).0 matches Option::Some(next) && next.handles.contains(s.handle@),
        step matches OperationStep::JoinAll(s) ==> flow_step(operation, step, location, state, flow).0 is Some
            && state.bound.subset_of(flow_step(operation, step, location, state, flow).0.unwrap().bound)
            && forall|m: int|
            0 <= m < s.handles@.len() && (#[trigger] s.handles@[m]).bind is Some ==> flow_step(
                operation,
                step,
                location,
                state,
                flow,
            ).0.unwrap().bound.contains(s.handles@[m].bind.unwrap()@),
        step matches OperationStep::Race(s) ==> s.bind matches Option::Some(bind) ==> flow_step(
            operation,
            step,
            location,
            state,
            flow,
        ).0 matches Option::Some(next) && next.bound.contains(bind@),
{
    if let OperationStep::JoinAll(s) = step {
        lemma_bind_joins_keeps_bound(state, s.handles@, s.handles@.len());
        assert forall|m: int|
            0 <= m < s.handles@.len() && (#[trigger] s.handles@[m]).bind is Some implies flow_step(
                operation,
                step,
                location,
                state,
                flow,
            ).0.unwrap().bound.contains(s.handles@[m].bind.unwrap()@) by {
            lemma_bind_joins_binds(state, s.handles@, s.handles@.len(), m, s.handles@[m].bind.unwrap());
        }
    }
}

} // verus!
