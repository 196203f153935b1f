//! The paths of an operation program.
//!
//! The program is a structured, acyclic block: every invocation
//! traverses one path through it, taking one arm at each decision and
//! ending at one terminal. Verification analyzes the program path by
//! path, so what a decision rests on is judged where it is taken.
//!
//! A rejectable transaction is a decision too: its execution site
//! forks into the committed continuation, which carries the
//! transaction step, and the rejected continuation, which carries
//! nothing and enters the `rejected` block before rejoining the
//! enclosing block if it falls through.

use vstd::prelude::*;

use crate::model::{
    child_location, Arm, AsyncJoin, Condition, Derivation, Effect, ErrorArm, Id,
    MatchResultStep, OperationBlock, OperationStep, ResultArm, ResultOutcome, StepLocation,
    Transaction, TransactionOutcome,
};

verus! {

/// The arm a path takes at one decision.
pub enum Decision<'a> {
    Match { result: &'a Id, arm: ResultArm },
    Branch { condition: &'a Condition, arm: Arm },
    /// A rejectable transaction's outcome. On the committed
    /// continuation the decision follows the transaction step; on the
    /// rejected continuation no transaction step precedes it.
    Transaction { transaction: &'a Id, outcome: TransactionOutcome },
}

impl<'a> Clone for Decision<'a> {
    fn clone(&self) -> (r: Self)
        ensures
            r == *self,
    {
        match self {
            Decision::Match { result, arm } => Decision::Match { result, arm: arm.clone() },
            Decision::Branch { condition, arm } => Decision::Branch { condition, arm: arm.clone() },
            Decision::Transaction { transaction, outcome } => Decision::Transaction {
                transaction,
                outcome: *outcome,
            },
        }
    }
}

/// What one step of a path does.
pub enum StepKind<'a> {
    /// The inline transaction executed here, committed on this path.
    Transaction { transaction: &'a Transaction },
    ExecuteEffect {
        effect_id: &'a Id,
        effect: &'a Effect,
        values: &'a Derivation,
        bind: Option<&'a Id>,
    },
    ExecuteEffectIntent { intent: &'a Id, bind: Option<&'a Id> },
    /// An asynchronous launch: only the handle is bound.
    ExecuteEffectAsync {
        handle: &'a Id,
        effect_id: &'a Id,
        effect: &'a Effect,
        values: &'a Derivation,
    },
    ExecuteEffectIntentAsync { intent: &'a Id, handle: &'a Id },
    /// The all-completion barrier.
    JoinAll { handles: &'a Vec<AsyncJoin> },
    /// The first-completion barrier.
    Race { handles: &'a Vec<Id>, bind: Option<&'a Id> },
    /// The path takes one arm of a decision here.
    Decision { decision: Decision<'a> },
}

impl<'a> Clone for StepKind<'a> {
    fn clone(&self) -> (r: Self)
        ensures
            r == *self,
    {
        match self {
            StepKind::Transaction { transaction } => StepKind::Transaction { transaction },
            StepKind::ExecuteEffect { effect_id, effect, values, bind } => StepKind::ExecuteEffect {
                effect_id,
                effect,
                values,
                bind: *bind,
            },
            StepKind::ExecuteEffectIntent { intent, bind } => StepKind::ExecuteEffectIntent {
                intent,
                bind: *bind,
            },
            StepKind::ExecuteEffectAsync { handle, effect_id, effect, values } => {
                StepKind::ExecuteEffectAsync { handle, effect_id, effect, values }
            },
            StepKind::ExecuteEffectIntentAsync { intent, handle } => {
                StepKind::ExecuteEffectIntentAsync { intent, handle }
            },
            StepKind::JoinAll { handles } => StepKind::JoinAll { handles },
            StepKind::Race { handles, bind } => StepKind::Race { handles, bind: *bind },
            StepKind::Decision { decision } => StepKind::Decision { decision: decision.clone() },
        }
    }
}

/// One step of a path, at its location in the program.
pub struct PathStep<'a> {
    pub location: StepLocation,
    pub kind: StepKind<'a>,
}

impl<'a> Clone for PathStep<'a> {
    fn clone(&self) -> (r: Self)
        ensures
            r == *self,
    {
        PathStep { location: self.location.clone(), kind: self.kind.clone() }
    }
}

/// How a path ends.
pub enum Terminal<'a> {
    Return { location: StepLocation, request: &'a Id, outcome: &'a ResultOutcome },
    Complete { location: StepLocation },
    /// The block fell through its last step with no terminal.
    /// Validation rejects this; verification stays conservative on a
    /// model it was not promised.
    Unterminated,
}

/// One path through the program: its linear steps in order and the
/// terminal it reaches.
pub struct Path<'a> {
    pub steps: Vec<PathStep<'a>>,
    pub terminal: Terminal<'a>,
}

// The mathematical model of a path: locations as text.

/// A step as the path model holds it: its location and what it does.
pub type Located<'a> = (Seq<char>, StepKind<'a>);

/// A terminal as the path model holds it.
pub enum TerminalAt<'a> {
    Return { location: Seq<char>, request: &'a Id, outcome: &'a ResultOutcome },
    Complete { location: Seq<char> },
    Unterminated,
}

/// A path as the model holds it.
pub type Trace<'a> = (Seq<Located<'a>>, TerminalAt<'a>);

pub open spec fn located<'a>(step: PathStep<'a>) -> Located<'a> {
    (step.location.label@, step.kind)
}

pub open spec fn prefix_view<'a>(steps: Seq<PathStep<'a>>) -> Seq<Located<'a>> {
    steps.map_values(|step: PathStep<'a>| located(step))
}

pub open spec fn terminal_view<'a>(terminal: Terminal<'a>) -> TerminalAt<'a> {
    match terminal {
        Terminal::Return { location, request, outcome } => TerminalAt::Return {
            location: location.label@,
            request,
            outcome,
        },
        Terminal::Complete { location } => TerminalAt::Complete { location: location.label@ },
        Terminal::Unterminated => TerminalAt::Unterminated,
    }
}

pub open spec fn trace_of<'a>(path: Path<'a>) -> Trace<'a> {
    (prefix_view(path.steps@), terminal_view(path.terminal))
}

pub open spec fn traces<'a>(paths: Seq<Path<'a>>) -> Seq<Trace<'a>> {
    paths.map_values(|path: Path<'a>| trace_of(path))
}

pub open spec fn option_ref<'a>(value: &'a Option<Id>) -> Option<&'a Id> {
    match value {
        Option::Some(id) => Option::Some(id),
        Option::None => Option::None,
    }
}

} // verus!

verus! {

pub open spec fn step_at<'a>(location: Seq<char>, kind: StepKind<'a>) -> Located<'a> {
    (location, kind)
}

pub open spec fn decision_at<'a>(location: Seq<char>, decision: Decision<'a>) -> Located<'a> {
    (location, StepKind::Decision { decision })
}

/// One step applied to `prefix`, in program order: each path the step
/// leads to, ended where the step ends it and open (`Unterminated`)
/// where it continues after the step.
pub open spec fn step_outcomes<'a>(prefix: Seq<Located<'a>>, step: &'a OperationStep, location: Seq<char>) -> Seq<
    Trace<'a>,
>
    decreases *step, 0nat, 0int, 0int,
{
    match step {
        OperationStep::Transaction(execute) => {
            let transaction = StepKind::Transaction { transaction: &execute.transaction };
            match &execute.rejected {
                Option::None => seq![
                    (prefix.push(step_at(location, transaction)), TerminalAt::Unterminated),
                ],
                Option::Some(rejected) => {
                    let committed = prefix.push(step_at(location, transaction)).push(
                        decision_at(
                            location,
                            Decision::Transaction {
                                transaction: &execute.transaction.id,
                                outcome: TransactionOutcome::Committed,
                            },
                        ),
                    );
                    let refused = prefix.push(
                        decision_at(
                            location,
                            Decision::Transaction {
                                transaction: &execute.transaction.id,
                                outcome: TransactionOutcome::Rejected,
                            },
                        ),
                    );
                    seq![(committed, TerminalAt::Unterminated)] + block_paths(
                        refused,
                        &rejected.steps,
                        0,
                        location,
                        Option::Some(Arm::Rejected),
                    )
                },
            }
        },
        OperationStep::ExecuteEffect(s) => seq![
            (
                prefix.push(
                    step_at(
                        location,
                        StepKind::ExecuteEffect {
                            effect_id: &s.effect_id,
                            effect: &s.effect,
                            values: &s.values,
                            bind: option_ref(&s.bind),
                        },
                    ),
                ),
                TerminalAt::Unterminated,
            ),
        ],
        OperationStep::ExecuteEffectIntent(s) => seq![
            (
                prefix.push(
                    step_at(
                        location,
                        StepKind::ExecuteEffectIntent {
                            intent: &s.intent,
                            bind: option_ref(&s.bind),
                        },
                    ),
                ),
                TerminalAt::Unterminated,
            ),
        ],
        OperationStep::ExecuteEffectAsync(s) => seq![
            (
                prefix.push(
                    step_at(
                        location,
                        StepKind::ExecuteEffectAsync {
                            handle: &s.handle,
                            effect_id: &s.effect_id,
                            effect: &s.effect,
                            values: &s.values,
                        },
                    ),
                ),
                TerminalAt::Unterminated,
            ),
        ],
        OperationStep::ExecuteEffectIntentAsync(s) => seq![
            (
                prefix.push(
                    step_at(
                        location,
                        StepKind::ExecuteEffectIntentAsync { intent: &s.intent, handle: &s.handle },
                    ),
                ),
                TerminalAt::Unterminated,
            ),
        ],
        OperationStep::JoinAll(s) => seq![
            (
                prefix.push(step_at(location, StepKind::JoinAll { handles: &s.handles })),
                TerminalAt::Unterminated,
            ),
        ],
        OperationStep::Race(s) => seq![
            (
                prefix.push(
                    step_at(
                        location,
                        StepKind::Race { handles: &s.handles, bind: option_ref(&s.bind) },
                    ),
                ),
                TerminalAt::Unterminated,
            ),
        ],
        OperationStep::MatchResult(s) => match_outcomes(prefix, s, location, s.errors@.len() as int),
        OperationStep::Branch(s) => {
            let taken = prefix.push(
                decision_at(location, Decision::Branch { condition: &s.condition, arm: Arm::Then }),
            );
            let first = block_paths(taken, &s.then_block.steps, 0, location, Option::Some(Arm::Then));
            let otherwise = prefix.push(
                decision_at(
                    location,
                    Decision::Branch { condition: &s.condition, arm: Arm::Otherwise },
                ),
            );
            match &s.otherwise {
                Option::Some(block) => first + block_paths(
                    otherwise,
                    &block.steps,
                    0,
                    location,
                    Option::Some(Arm::Otherwise),
                ),
                Option::None => first.push((otherwise, TerminalAt::Unterminated)),
            }
        },
        OperationStep::Return(s) => seq![
            (prefix, TerminalAt::Return { location, request: &s.request, outcome: &s.outcome }),
        ],
        OperationStep::Complete => seq![(prefix, TerminalAt::Complete { location })],
    }
}

/// The arms of a result match, up to but excluding error arm `count`,
/// in program order: the `Ok` arm first, then each error arm in
/// declaration order.
pub open spec fn match_outcomes<'a>(
    prefix: Seq<Located<'a>>,
    step: &'a MatchResultStep,
    location: Seq<char>,
    count: int,
) -> Seq<Trace<'a>>
    decreases *step, 3nat, count, 0int,
{
    if count <= 0 || count > step.errors@.len() {
        let taken = prefix.push(
            decision_at(location, Decision::Match { result: &step.result, arm: ResultArm::Success }),
        );
        block_paths(taken, &step.ok.steps, 0, location, Option::Some(Arm::Success))
    } else {
        let arm: &'a ErrorArm = &step.errors@[count - 1];
        let taken = prefix.push(
            decision_at(
                location,
                Decision::Match { result: &step.result, arm: ResultArm::Failure(arm.error) },
            ),
        );
        match_outcomes(prefix, step, location, count - 1) + block_paths(
            taken,
            &arm.block.steps,
            0,
            location,
            Option::Some(Arm::Failure(arm.error)),
        )
    }
}

/// Every path from `prefix` through the steps of a block from `from`
/// on, in program order; those that fall through the block's end are
/// left open (`Unterminated`).
pub open spec fn block_paths<'a>(
    prefix: Seq<Located<'a>>,
    steps: &'a Vec<OperationStep>,
    from: int,
    parent: Seq<char>,
    arm: Option<Arm>,
) -> Seq<Trace<'a>>
    decreases steps@, 2nat, steps@.len() - from, 1int,
{
    if from < 0 || from >= steps@.len() {
        seq![(prefix, TerminalAt::Unterminated)]
    } else {
        continue_paths(
            step_outcomes(prefix, &steps@[from], child_location(parent, arm, from)),
            steps,
            from + 1,
            parent,
            arm,
        )
    }
}

/// Each of `paths` in turn: an ended one as it is, an open one carried
/// through the steps of the block from `from` on.
pub open spec fn continue_paths<'a>(
    paths: Seq<Trace<'a>>,
    steps: &'a Vec<OperationStep>,
    from: int,
    parent: Seq<char>,
    arm: Option<Arm>,
) -> Seq<Trace<'a>>
    decreases steps@, 2nat, steps@.len() - from, paths.len() + 2,
{
    if paths.len() == 0 || from < 0 || from > steps@.len() {
        paths
    } else {
        let first = paths[0];
        let head = if first.1 is Unterminated {
            block_paths(first.0, steps, from, parent, arm)
        } else {
            seq![first]
        };
        head + continue_paths(paths.drop_first(), steps, from, parent, arm)
    }
}

/// `paths`, each with `prefix` put before its steps.
pub open spec fn prepend<'a>(prefix: Seq<Located<'a>>, paths: Seq<Trace<'a>>) -> Seq<Trace<'a>> {
    paths.map_values(|path: Trace<'a>| (prefix + path.0, path.1))
}

proof fn lemma_prepend_concat<'a>(prefix: Seq<Located<'a>>, first: Seq<Trace<'a>>, second: Seq<Trace<'a>>)
    ensures
        prepend(prefix, first + second) == prepend(prefix, first) + prepend(prefix, second),
{
    assert(prepend(prefix, first + second) =~= prepend(prefix, first) + prepend(prefix, second));
}

proof fn lemma_prepend_twice<'a>(outer: Seq<Located<'a>>, inner: Seq<Located<'a>>, paths: Seq<Trace<'a>>)
    ensures
        prepend(outer, prepend(inner, paths)) == prepend(outer + inner, paths),
{
    assert forall|i: int| 0 <= i < paths.len() implies prepend(outer, prepend(inner, paths))[i]
        == prepend(outer + inner, paths)[i] by {
        assert(outer + (inner + paths[i].0) =~= (outer + inner) + paths[i].0);
    }
    assert(prepend(outer, prepend(inner, paths)) =~= prepend(outer + inner, paths));
}

/// A single open path after one located step, from any prefix.
proof fn lemma_prepend_single<'a>(prefix: Seq<Located<'a>>, step: Located<'a>)
    ensures
        seq![(prefix.push(step), TerminalAt::Unterminated)] == prepend(
            prefix,
            seq![(Seq::<Located<'a>>::empty().push(step), TerminalAt::Unterminated)],
        ),
{
    assert(prefix + Seq::<Located<'a>>::empty().push(step) =~= prefix.push(step));
    assert(seq![(prefix.push(step), TerminalAt::<'a>::Unterminated)] =~= prepend(
        prefix,
        seq![(Seq::<Located<'a>>::empty().push(step), TerminalAt::Unterminated)],
    ));
}

/// The paths a step leads to do not depend on the prefix they extend.
pub proof fn lemma_step_outcomes_prefix<'a>(prefix: Seq<Located<'a>>, step: &'a OperationStep, location: Seq<char>)
    ensures
        step_outcomes(prefix, step, location) == prepend(
            prefix,
            step_outcomes(Seq::empty(), step, location),
        ),
    decreases *step, 0nat, 0int, 0int,
{
    let empty = Seq::<Located<'a>>::empty();
    match step {
        OperationStep::Transaction(execute) => {
            let transaction = StepKind::Transaction { transaction: &execute.transaction };
            match &execute.rejected {
                Option::None => {
                    lemma_prepend_single(prefix, step_at(location, transaction));
                },
                Option::Some(rejected) => {
                    let committed = decision_at(
                        location,
                        Decision::Transaction {
                            transaction: &execute.transaction.id,
                            outcome: TransactionOutcome::Committed,
                        },
                    );
                    let refused = decision_at(
                        location,
                        Decision::Transaction {
                            transaction: &execute.transaction.id,
                            outcome: TransactionOutcome::Rejected,
                        },
                    );
                    lemma_block_paths_prefix(
                        prefix.push(refused),
                        &rejected.steps,
                        0,
                        location,
                        Option::Some(Arm::Rejected),
                    );
                    lemma_block_paths_prefix(
                        empty.push(refused),
                        &rejected.steps,
                        0,
                        location,
                        Option::Some(Arm::Rejected),
                    );
                    let inner = block_paths(empty, &rejected.steps, 0, location, Option::Some(Arm::Rejected));
                    lemma_prepend_twice(prefix, empty.push(refused), inner);
                    assert(prefix + empty.push(refused) =~= prefix.push(refused));
                    assert(prefix + empty.push(step_at(location, transaction)).push(committed)
                        =~= prefix.push(step_at(location, transaction)).push(committed));
                    lemma_prepend_concat(
                        prefix,
                        seq![(empty.push(step_at(location, transaction)).push(committed), TerminalAt::Unterminated)],
                        prepend(empty.push(refused), inner),
                    );
                    assert(prepend(
                        prefix,
                        seq![(empty.push(step_at(location, transaction)).push(committed), TerminalAt::Unterminated)],
                    ) =~= seq![(prefix.push(step_at(location, transaction)).push(committed), TerminalAt::Unterminated)]);
                },
            }
        },
        OperationStep::ExecuteEffect(s) => {
            lemma_prepend_single(
                prefix,
                step_at(
                    location,
                    StepKind::ExecuteEffect {
                        effect_id: &s.effect_id,
                        effect: &s.effect,
                        values: &s.values,
                        bind: option_ref(&s.bind),
                    },
                ),
            );
        },
        OperationStep::ExecuteEffectIntent(s) => {
            lemma_prepend_single(
                prefix,
                step_at(
                    location,
                    StepKind::ExecuteEffectIntent { intent: &s.intent, bind: option_ref(&s.bind) },
                ),
            );
        },
        OperationStep::ExecuteEffectAsync(s) => {
            lemma_prepend_single(
                prefix,
                step_at(
                    location,
                    StepKind::ExecuteEffectAsync {
                        handle: &s.handle,
                        effect_id: &s.effect_id,
                        effect: &s.effect,
                        values: &s.values,
                    },
                ),
            );
        },
        OperationStep::ExecuteEffectIntentAsync(s) => {
            lemma_prepend_single(
                prefix,
                step_at(
                    location,
                    StepKind::ExecuteEffectIntentAsync { intent: &s.intent, handle: &s.handle },
                ),
            );
        },
        OperationStep::JoinAll(s) => {
            lemma_prepend_single(prefix, step_at(location, StepKind::JoinAll { handles: &s.handles }));
        },
        OperationStep::Race(s) => {
            lemma_prepend_single(
                prefix,
                step_at(location, StepKind::Race { handles: &s.handles, bind: option_ref(&s.bind) }),
            );
        },
        OperationStep::MatchResult(s) => {
            lemma_match_outcomes_prefix(prefix, s, location, s.errors@.len() as int);
        },
        OperationStep::Branch(s) => {
            let taken = decision_at(location, Decision::Branch { condition: &s.condition, arm: Arm::Then });
            let other = decision_at(
                location,
                Decision::Branch { condition: &s.condition, arm: Arm::Otherwise },
            );
            lemma_block_paths_prefix(prefix.push(taken), &s.then_block.steps, 0, location, Option::Some(Arm::Then));
            lemma_block_paths_prefix(empty.push(taken), &s.then_block.steps, 0, location, Option::Some(Arm::Then));
            let first = block_paths(empty, &s.then_block.steps, 0, location, Option::Some(Arm::Then));
            lemma_prepend_twice(prefix, empty.push(taken), first);
            assert(prefix + empty.push(taken) =~= prefix.push(taken));
            match &s.otherwise {
                Option::Some(block) => {
                    lemma_block_paths_prefix(prefix.push(other), &block.steps, 0, location, Option::Some(Arm::Otherwise));
                    lemma_block_paths_prefix(empty.push(other), &block.steps, 0, location, Option::Some(Arm::Otherwise));
                    let second = block_paths(empty, &block.steps, 0, location, Option::Some(Arm::Otherwise));
                    lemma_prepend_twice(prefix, empty.push(other), second);
                    assert(prefix + empty.push(other) =~= prefix.push(other));
                    lemma_prepend_concat(
                        prefix,
                        prepend(empty.push(taken), first),
                        prepend(empty.push(other), second),
                    );
                },
                Option::None => {
                    let firsts = prepend(empty.push(taken), first);
                    lemma_prepend_concat(prefix, firsts, seq![(empty.push(other), TerminalAt::Unterminated)]);
                    lemma_prepend_single(prefix, other);
                    assert(firsts.push((empty.push(other), TerminalAt::Unterminated)) =~= firsts + seq![
                        (empty.push(other), TerminalAt::Unterminated),
                    ]);
                    assert(prepend(prefix, firsts).push((prefix.push(other), TerminalAt::Unterminated))
                        =~= prepend(prefix, firsts) + seq![(prefix.push(other), TerminalAt::Unterminated)]);
                },
            }
        },
        OperationStep::Return(s) => {
            assert(prefix + empty =~= prefix);
            assert(step_outcomes(prefix, step, location) =~= prepend(
                prefix,
                step_outcomes(empty, step, location),
            ));
        },
        OperationStep::Complete => {
            assert(prefix + empty =~= prefix);
            assert(step_outcomes(prefix, step, location) =~= prepend(
                prefix,
                step_outcomes(empty, step, location),
            ));
        },
    }
}

/// The arms of a match likewise.
pub proof fn lemma_match_outcomes_prefix<'a>(
    prefix: Seq<Located<'a>>,
    step: &'a MatchResultStep,
    location: Seq<char>,
    count: int,
)
    ensures
        match_outcomes(prefix, step, location, count) == prepend(
            prefix,
            match_outcomes(Seq::empty(), step, location, count),
        ),
    decreases *step, 3nat, count, 0int,
{
    let empty = Seq::<Located<'a>>::empty();
    if count <= 0 || count > step.errors@.len() {
        let taken = decision_at(location, Decision::Match { result: &step.result, arm: ResultArm::Success });
        lemma_block_paths_prefix(prefix.push(taken), &step.ok.steps, 0, location, Option::Some(Arm::Success));
        lemma_block_paths_prefix(empty.push(taken), &step.ok.steps, 0, location, Option::Some(Arm::Success));
        lemma_prepend_twice(
            prefix,
            empty.push(taken),
            block_paths(empty, &step.ok.steps, 0, location, Option::Some(Arm::Success)),
        );
        assert(prefix + empty.push(taken) =~= prefix.push(taken));
    } else {
        lemma_match_outcomes_prefix(prefix, step, location, count - 1);
        let arm: &'a ErrorArm = &step.errors@[count - 1];
        assert(decreases_to!(step.errors@ => step.errors@[count - 1]));
        let taken = decision_at(
            location,
            Decision::Match { result: &step.result, arm: ResultArm::Failure(arm.error) },
        );
        let which = Option::Some(Arm::Failure(arm.error));
        lemma_block_paths_prefix(prefix.push(taken), &arm.block.steps, 0, location, which);
        lemma_block_paths_prefix(empty.push(taken), &arm.block.steps, 0, location, which);
        let inner = block_paths(empty, &arm.block.steps, 0, location, which);
        lemma_prepend_twice(prefix, empty.push(taken), inner);
        assert(prefix + empty.push(taken) =~= prefix.push(taken));
        lemma_prepend_concat(
            prefix,
            match_outcomes(empty, step, location, count - 1),
            prepend(empty.push(taken), inner),
        );
    }
}

/// The paths through a block do not depend on the prefix they extend.
pub proof fn lemma_block_paths_prefix<'a>(
    prefix: Seq<Located<'a>>,
    steps: &'a Vec<OperationStep>,
    from: int,
    parent: Seq<char>,
    arm: Option<Arm>,
)
    ensures
        block_paths(prefix, steps, from, parent, arm) == prepend(
            prefix,
            block_paths(Seq::empty(), steps, from, parent, arm),
        ),
    decreases steps@, 2nat, steps@.len() - from, 1int,
{
    let empty = Seq::<Located<'a>>::empty();
    if from < 0 || from >= steps@.len() {
        assert(prefix + empty =~= prefix);
        assert(block_paths(prefix, steps, from, parent, arm) =~= prepend(
            prefix,
            block_paths(empty, steps, from, parent, arm),
        ));
    } else {
        let location = child_location(parent, arm, from);
        assert(decreases_to!(steps@ => steps@[from]));
        lemma_step_outcomes_prefix(prefix, &steps@[from], location);
        lemma_continue_paths_prefix(
            prefix,
            step_outcomes(empty, &steps@[from], location),
            steps,
            from + 1,
            parent,
            arm,
        );
    }
}

/// Carrying paths on through a block commutes with putting a prefix
/// before them.
pub proof fn lemma_continue_paths_prefix<'a>(
    prefix: Seq<Located<'a>>,
    paths: Seq<Trace<'a>>,
    steps: &'a Vec<OperationStep>,
    from: int,
    parent: Seq<char>,
    arm: Option<Arm>,
)
    ensures
        continue_paths(prepend(prefix, paths), steps, from, parent, arm) == prepend(
            prefix,
            continue_paths(paths, steps, from, parent, arm),
        ),
    decreases steps@, 2nat, steps@.len() - from, paths.len() + 2,
{
    if paths.len() == 0 || from < 0 || from > steps@.len() {
        assert(prepend(prefix, paths).len() == paths.len());
    } else {
        let first = paths[0];
        let moved = prepend(prefix, paths);
        assert(moved[0] == (prefix + first.0, first.1));
        assert(moved.drop_first() =~= prepend(prefix, paths.drop_first()));
        lemma_continue_paths_prefix(prefix, paths.drop_first(), steps, from, parent, arm);
        let rest = continue_paths(paths.drop_first(), steps, from, parent, arm);
        if first.1 is Unterminated {
            lemma_block_paths_prefix(prefix + first.0, steps, from, parent, arm);
            lemma_block_paths_prefix(first.0, steps, from, parent, arm);
            let inner = block_paths(Seq::empty(), steps, from, parent, arm);
            lemma_prepend_twice(prefix, first.0, inner);
            lemma_prepend_concat(prefix, prepend(first.0, inner), rest);
        } else {
            lemma_prepend_concat(prefix, seq![first], rest);
            assert(prepend(prefix, seq![first]) =~= seq![(prefix + first.0, first.1)]);
        }
    }
}

/// Every path through `program`, in program order: the first arm of
/// each decision before its second, and a transaction's committed
/// continuation before its rejected one. A path that falls through the
/// program's end is `Unterminated`.
pub open spec fn program_paths<'a>(program: &'a OperationBlock) -> Seq<Trace<'a>> {
    block_paths(Seq::empty(), &program.steps, 0, Seq::empty(), Option::None)
}

} // verus!

verus! {

/// A copy of a path prefix.
fn copy_prefix<'a>(prefix: &Vec<PathStep<'a>>) -> (r: Vec<PathStep<'a>>)
    ensures
        r@ == prefix@,
{
    let mut copy: Vec<PathStep<'a>> = Vec::new();
    let mut i: usize = 0;
    while i < prefix.len()
        invariant
            i <= prefix@.len(),
            copy@ == prefix@.take(i as int),
        decreases prefix@.len() - i,
    {
        copy.push(prefix[i].clone());
        proof {
            assert(copy@ =~= prefix@.take(i + 1));
        }
        i += 1;
    }
    proof {
        assert(prefix@.take(prefix@.len() as int) =~= prefix@);
    }
    copy
}

/// Extends a prefix by one step at `location`.
fn push_step<'a>(prefix: &mut Vec<PathStep<'a>>, location: &StepLocation, kind: StepKind<'a>)
    ensures
        prefix_view(final(prefix)@) == prefix_view(old(prefix)@).push((location.label@, kind)),
{
    prefix.push(PathStep { location: location.clone(), kind });
    proof {
        assert(prefix_view(prefix@) =~= prefix_view(old(prefix)@).push((location.label@, kind)));
    }
}

/// The single path `steps`, ended at `terminal`.
fn one_path<'a>(steps: Vec<PathStep<'a>>, terminal: Terminal<'a>) -> (r: Vec<Path<'a>>)
    ensures
        traces(r@) == seq![(prefix_view(steps@), terminal_view(terminal))],
{
    let mut out: Vec<Path<'a>> = Vec::new();
    out.push(Path { steps, terminal });
    proof {
        assert(traces(out@) =~= seq![(prefix_view(steps@), terminal_view(terminal))]);
    }
    out
}

/// Appends `more` to `out`.
fn append_paths<'a>(out: &mut Vec<Path<'a>>, more: Vec<Path<'a>>)
    ensures
        traces(final(out)@) == traces(old(out)@) + traces(more@),
{
    let ghost added = more@;
    let mut more = more;
    out.append(&mut more);
    proof {
        assert(traces(out@) =~= traces(old(out)@) + traces(added)) by {
            assert(out@ =~= old(out)@ + added);
        }
    }
}

} // verus!

verus! {

/// Every path through the program, in program order: the first arm of
/// each decision before its second, and a transaction's committed
/// continuation before its rejected one. A path that falls through the
/// program's end has no terminal.
pub fn paths<'a>(program: &'a OperationBlock) -> (r: Vec<Path<'a>>)
    ensures
        traces(r@) == program_paths(program),
{
    let root = StepLocation::root();
    let prefix: Vec<PathStep<'a>> = Vec::new();
    proof {
        assert(prefix_view(prefix@) =~= Seq::empty());
    }
    walk(prefix, &program.steps, 0, &root, &Option::None)
}

/// Every path from `prefix` through the steps of a block from `from`
/// on, in program order; those that fall through the block's end have
/// no terminal.
fn walk<'a>(
    prefix: Vec<PathStep<'a>>,
    steps: &'a Vec<OperationStep>,
    from: usize,
    parent: &StepLocation,
    arm: &Option<Arm>,
) -> (r: Vec<Path<'a>>)
    requires
        from <= steps@.len(),
    ensures
        traces(r@) == block_paths(prefix_view(prefix@), steps, from as int, parent.label@, *arm),
    decreases steps@, 2nat, steps@.len() - from, 1int,
{
    if from >= steps.len() {
        return one_path(prefix, Terminal::Unterminated);
    }
    let location = OperationBlock::location(parent, arm, from);
    proof {
        assert(decreases_to!(steps@ => steps@[from as int]));
    }
    let outcomes = step_paths(prefix, &steps[from], &location);
    continue_walk(outcomes, steps, from + 1, parent, arm)
}

/// Each of `paths` in turn: an ended one as it is, an open one carried
/// through the steps of the block from `from` on.
fn continue_walk<'a>(
    paths: Vec<Path<'a>>,
    steps: &'a Vec<OperationStep>,
    from: usize,
    parent: &StepLocation,
    arm: &Option<Arm>,
) -> (r: Vec<Path<'a>>)
    requires
        from <= steps@.len(),
    ensures
        traces(r@) == continue_paths(traces(paths@), steps, from as int, parent.label@, *arm),
    decreases steps@, 2nat, steps@.len() - from, paths@.len() + 2,
{
    let ghost whole = continue_paths(traces(paths@), steps, from as int, parent.label@, *arm);
    let mut rest = paths;
    let mut out: Vec<Path<'a>> = Vec::new();
    proof {
        assert(traces(out@) + whole =~= whole);
    }
    while rest.len() > 0
        invariant
            from <= steps@.len(),
            traces(out@) + continue_paths(traces(rest@), steps, from as int, parent.label@, *arm)
                == whole,
        decreases rest@.len(),
    {
        let ghost before = rest@;
        let first = rest.remove(0);
        proof {
            assert(rest@ =~= before.drop_first());
            assert(traces(rest@) =~= traces(before).drop_first());
            assert(traces(before)[0] == (prefix_view(first.steps@), terminal_view(first.terminal)));
        }
        let Path { steps: prefix, terminal } = first;
        let head = match terminal {
            Terminal::Unterminated => walk(prefix, steps, from, parent, arm),
            terminal => one_path(prefix, terminal),
        };
        let ghost done = traces(out@);
        append_paths(&mut out, head);
        proof {
            assert(done + continue_paths(traces(before), steps, from as int, parent.label@, *arm)
                == whole);
            assert(traces(out@) + continue_paths(
                traces(rest@),
                steps,
                from as int,
                parent.label@,
                *arm,
            ) =~= done + continue_paths(traces(before), steps, from as int, parent.label@, *arm));
        }
    }
    proof {
        assert(traces(rest@) =~= Seq::empty());
        assert(traces(out@) + Seq::empty() =~= traces(out@));
    }
    out
}

/// The paths one step leads `prefix` to, in program order.
fn step_paths<'a>(prefix: Vec<PathStep<'a>>, step: &'a OperationStep, location: &StepLocation) -> (r:
    Vec<Path<'a>>)
    ensures
        traces(r@) == step_outcomes(prefix_view(prefix@), step, location.label@),
    decreases *step, 0nat, 0int, 0int,
{
    match step {
        OperationStep::Transaction(execute) => {
            let transaction = &execute.transaction;
            match &execute.rejected {
                Option::None => {
                    let mut prefix = prefix;
                    push_step(&mut prefix, location, StepKind::Transaction { transaction });
                    one_path(prefix, Terminal::Unterminated)
                },
                Option::Some(rejected) => {
                    let mut committed = copy_prefix(&prefix);
                    push_step(&mut committed, location, StepKind::Transaction { transaction });
                    push_step(
                        &mut committed,
                        location,
                        StepKind::Decision {
                            decision: Decision::Transaction {
                                transaction: &transaction.id,
                                outcome: TransactionOutcome::Committed,
                            },
                        },
                    );
                    let mut refused = prefix;
                    push_step(
                        &mut refused,
                        location,
                        StepKind::Decision {
                            decision: Decision::Transaction {
                                transaction: &transaction.id,
                                outcome: TransactionOutcome::Rejected,
                            },
                        },
                    );
                    let mut out = one_path(committed, Terminal::Unterminated);
                    let more = walk(refused, &rejected.steps, 0, location, &Option::Some(Arm::Rejected));
                    append_paths(&mut out, more);
                    out
                },
            }
        },
        OperationStep::ExecuteEffect(s) => {
            let mut prefix = prefix;
            push_step(
                &mut prefix,
                location,
                StepKind::ExecuteEffect {
                    effect_id: &s.effect_id,
                    effect: &s.effect,
                    values: &s.values,
                    bind: s.bind.as_ref(),
                },
            );
            one_path(prefix, Terminal::Unterminated)
        },
        OperationStep::ExecuteEffectIntent(s) => {
            let mut prefix = prefix;
            push_step(
                &mut prefix,
                location,
                StepKind::ExecuteEffectIntent { intent: &s.intent, bind: s.bind.as_ref() },
            );
            one_path(prefix, Terminal::Unterminated)
        },
        OperationStep::ExecuteEffectAsync(s) => {
            let mut prefix = prefix;
            push_step(
                &mut prefix,
                location,
                StepKind::ExecuteEffectAsync {
                    handle: &s.handle,
                    effect_id: &s.effect_id,
                    effect: &s.effect,
                    values: &s.values,
                },
            );
            one_path(prefix, Terminal::Unterminated)
        },
        OperationStep::ExecuteEffectIntentAsync(s) => {
            let mut prefix = prefix;
            push_step(
                &mut prefix,
                location,
                StepKind::ExecuteEffectIntentAsync { intent: &s.intent, handle: &s.handle },
            );
            one_path(prefix, Terminal::Unterminated)
        },
        OperationStep::JoinAll(s) => {
            let mut prefix = prefix;
            push_step(&mut prefix, location, StepKind::JoinAll { handles: &s.handles });
            one_path(prefix, Terminal::Unterminated)
        },
        OperationStep::Race(s) => {
            let mut prefix = prefix;
            push_step(
                &mut prefix,
                location,
                StepKind::Race { handles: &s.handles, bind: s.bind.as_ref() },
            );
            one_path(prefix, Terminal::Unterminated)
        },
        OperationStep::MatchResult(s) => match_paths(prefix, s, location),
        OperationStep::Branch(s) => {
            let mut taken = copy_prefix(&prefix);
            push_step(
                &mut taken,
                location,
                StepKind::Decision {
                    decision: Decision::Branch { condition: &s.condition, arm: Arm::Then },
                },
            );
            let mut out = walk(taken, &s.then_block.steps, 0, location, &Option::Some(Arm::Then));
            let mut otherwise = prefix;
            push_step(
                &mut otherwise,
                location,
                StepKind::Decision {
                    decision: Decision::Branch { condition: &s.condition, arm: Arm::Otherwise },
                },
            );
            match &s.otherwise {
                Option::Some(block) => {
                    let more = walk(otherwise, &block.steps, 0, location, &Option::Some(Arm::Otherwise));
                    append_paths(&mut out, more);
                },
                Option::None => {
                    let ghost before = traces(out@);
                    let ghost open = prefix_view(otherwise@);
                    let more = one_path(otherwise, Terminal::Unterminated);
                    append_paths(&mut out, more);
                    proof {
                        assert(traces(out@) =~= before.push((open, TerminalAt::Unterminated)));
                    }
                },
            }
            out
        },
        OperationStep::Return(s) => one_path(
            prefix,
            Terminal::Return { location: location.clone(), request: &s.request, outcome: &s.outcome },
        ),
        OperationStep::Complete => one_path(prefix, Terminal::Complete { location: location.clone() }),
    }
}

/// The paths through every arm of a result match, in program order: the
/// `Ok` arm, then each error arm in declaration order.
fn match_paths<'a>(prefix: Vec<PathStep<'a>>, step: &'a MatchResultStep, location: &StepLocation) -> (r:
    Vec<Path<'a>>)
    ensures
        traces(r@) == match_outcomes(
            prefix_view(prefix@),
            step,
            location.label@,
            step.errors@.len() as int,
        ),
    decreases *step, 3nat, 0int, 0int,
{
    let mut taken = copy_prefix(&prefix);
    push_step(
        &mut taken,
        location,
        StepKind::Decision {
            decision: Decision::Match { result: &step.result, arm: ResultArm::Success },
        },
    );
    let mut out = walk(taken, &step.ok.steps, 0, location, &Option::Some(Arm::Success));
    let mut k: usize = 0;
    while k < step.errors.len()
        invariant
            k <= step.errors@.len(),
            traces(out@) == match_outcomes(prefix_view(prefix@), step, location.label@, k as int),
        decreases step.errors@.len() - k,
    {
        let arm = &step.errors[k];
        let mut taken = copy_prefix(&prefix);
        push_step(
            &mut taken,
            location,
            StepKind::Decision {
                decision: Decision::Match { result: &step.result, arm: ResultArm::err(&arm.error) },
            },
        );
        let more = walk(
            taken,
            &arm.block.steps,
            0,
            location,
            &Option::Some(Arm::Failure(arm.error.clone())),
        );
        append_paths(&mut out, more);
        k += 1;
    }
    out
}

} // verus!

verus! {

/// The identity of a path within its program: the arm taken at each
/// decision along it, in order. Empty for a program with no decisions.
pub struct PathRef {
    pub decisions: Vec<DecisionTaken>,
}

impl PathRef {
    /// The program itself, as a path with no decisions.
    pub fn empty() -> (r: PathRef)
        ensures
            r.decisions@ == Seq::<DecisionTaken>::empty(),
    {
        PathRef { decisions: Vec::new() }
    }
}

/// One decision a path takes, by location and arm.
pub enum DecisionTaken {
    Match { location: StepLocation, result: Id, arm: ResultArm },
    Branch { location: StepLocation, arm: Arm },
    Transaction { location: StepLocation, transaction: Id, outcome: TransactionOutcome },
}

impl Clone for DecisionTaken {
    fn clone(&self) -> (r: Self)
        ensures
            r == *self,
    {
        match self {
            DecisionTaken::Match { location, result, arm } => DecisionTaken::Match {
                location: location.clone(),
                result: result.clone(),
                arm: arm.clone(),
            },
            DecisionTaken::Branch { location, arm } => DecisionTaken::Branch {
                location: location.clone(),
                arm: arm.clone(),
            },
            DecisionTaken::Transaction { location, transaction, outcome } => {
                DecisionTaken::Transaction {
                    location: location.clone(),
                    transaction: transaction.clone(),
                    outcome: *outcome,
                }
            },
        }
    }
}

/// The decision a step takes, if it is one.
pub open spec fn taken_at<'a>(step: PathStep<'a>) -> Option<DecisionTaken> {
    match step.kind {
        StepKind::Decision { decision } => Option::Some(
            match decision {
                Decision::Match { result, arm } => DecisionTaken::Match {
                    location: step.location,
                    result: *result,
                    arm,
                },
                Decision::Branch { arm, .. } => DecisionTaken::Branch { location: step.location, arm },
                Decision::Transaction { transaction, outcome } => DecisionTaken::Transaction {
                    location: step.location,
                    transaction: *transaction,
                    outcome,
                },
            },
        ),
        _ => Option::None,
    }
}

/// The decisions along a sequence of steps, in order.
pub open spec fn decisions_along<'a>(steps: Seq<PathStep<'a>>) -> Seq<DecisionTaken>
    decreases steps.len(),
{
    if steps.len() == 0 {
        Seq::empty()
    } else {
        decisions_along(steps.drop_last()) + match taken_at(steps.last()) {
            Option::Some(taken) => seq![taken],
            Option::None => Seq::empty(),
        }
    }
}

/// Whether a path ending at `terminal` is one an invocation triggered
/// by `input` can take.
pub open spec fn admits<'a>(terminal: Terminal<'a>, input: Id) -> bool {
    match terminal {
        Terminal::Return { request, .. } => request@ == input@,
        _ => true,
    }
}

impl<'a> Path<'a> {
    /// The path as a proof or obstacle names it: the decisions taken.
    pub fn reference(&self) -> (r: PathRef)
        ensures
            r.decisions@ == decisions_along(self.steps@),
    {
        let mut decisions: Vec<DecisionTaken> = Vec::new();
        let mut i: usize = 0;
        while i < self.steps.len()
            invariant
                i <= self.steps@.len(),
                decisions@ == decisions_along(self.steps@.take(i as int)),
            decreases self.steps@.len() - i,
        {
            let step = &self.steps[i];
            proof {
                assert(self.steps@.take(i + 1).drop_last() =~= self.steps@.take(i as int));
            }
            match &step.kind {
                StepKind::Decision { decision } => {
                    let taken = match decision {
                        Decision::Match { result, arm } => DecisionTaken::Match {
                            location: step.location.clone(),
                            result: (*result).clone(),
                            arm: arm.clone(),
                        },
                        Decision::Branch { arm, .. } => DecisionTaken::Branch {
                            location: step.location.clone(),
                            arm: arm.clone(),
                        },
                        Decision::Transaction { transaction, outcome } => {
                            DecisionTaken::Transaction {
                                location: step.location.clone(),
                                transaction: (*transaction).clone(),
                                outcome: *outcome,
                            }
                        },
                    };
                    decisions.push(taken);
                },
                _ => {},
            }
            i += 1;
        }
        proof {
            assert(self.steps@.take(self.steps@.len() as int) =~= self.steps@);
        }
        PathRef { decisions }
    }

    /// Whether an invocation triggered by `input` can take this path:
    /// it ends at `complete`, or at a `return` for that input. An
    /// unterminated path is admitted conservatively, so its work is
    /// still analyzed.
    pub fn admitted_for(&self, input: &Id) -> (r: bool)
        ensures
            r == admits(self.terminal, *input),
    {
        match &self.terminal {
            Terminal::Return { request, .. } => **request == *input,
            Terminal::Complete { .. } | Terminal::Unterminated => true,
        }
    }

    /// The outcome the path returns for `input`, when it ends at a
    /// `return` for it.
    pub fn returns_for(&self, input: &Id) -> (r: Option<&'a ResultOutcome>)
        ensures
            r == match self.terminal {
                Terminal::Return { request, outcome, .. } => if request@ == input@ {
                    Option::Some(outcome)
                } else {
                    Option::None
                },
                _ => Option::None,
            },
    {
        match &self.terminal {
            Terminal::Return { request, outcome, .. } => {
                if **request == *input {
                    Option::Some(*outcome)
                } else {
                    Option::None
                }
            },
            _ => Option::None,
        }
    }
}

} // verus!
