//! The service model the analyzer reads: operations, their inputs,
//! their structured programs and the transactions those execute, and
//! the requirements they declare.

use vstd::prelude::*;

verus! {

/// A declaration's identity in the global model namespace.
pub type Id = String;

/// The arm of a decision through which a nested block is entered.
pub enum Arm {
    Then,
    Otherwise,
    Success,
    /// The arm of a result match that handles the named error class.
    Failure(Id),
    Rejected,
}

impl Clone for Arm {
    fn clone(&self) -> (r: Self)
        ensures
            r == *self,
    {
        match self {
            Arm::Then => Arm::Then,
            Arm::Otherwise => Arm::Otherwise,
            Arm::Success => Arm::Success,
            Arm::Failure(error) => Arm::Failure(error.clone()),
            Arm::Rejected => Arm::Rejected,
        }
    }
}

/// The name of an arm as a location or a path label spells it.
pub open spec fn arm_text(arm: Arm) -> Seq<char> {
    match arm {
        Arm::Then => "then"@,
        Arm::Otherwise => "otherwise"@,
        Arm::Success => "ok"@,
        Arm::Failure(error) => error@,
        Arm::Rejected => "rejected"@,
    }
}

impl Arm {
    /// The arm through which the block handling `arm` is entered.
    pub fn of(arm: &ResultArm) -> (r: Arm)
        ensures
            r == arm_of(*arm),
    {
        match arm {
            ResultArm::Success => Arm::Success,
            ResultArm::Failure(error) => Arm::Failure(error.clone()),
        }
    }

    pub fn text(&self) -> (r: &'static str)
        requires
            !(*self is Failure),
        ensures
            r@ == arm_text(*self),
    {
        match self {
            Arm::Then => "then",
            Arm::Otherwise => "otherwise",
            Arm::Success => "ok",
            Arm::Rejected => "rejected",
            Arm::Failure(_) => "err",
        }
    }
}

pub open spec fn arm_of(arm: ResultArm) -> Arm {
    match arm {
        ResultArm::Success => Arm::Success,
        ResultArm::Failure(error) => Arm::Failure(error),
    }
}

/// The arm of a result match taken: the `Ok` arm, or the arm of one
/// declared error class.
pub enum ResultArm {
    Success,
    Failure(Id),
}

impl Clone for ResultArm {
    fn clone(&self) -> (r: Self)
        ensures
            r == *self,
    {
        match self {
            ResultArm::Success => ResultArm::Success,
            ResultArm::Failure(error) => ResultArm::Failure(error.clone()),
        }
    }
}

impl ResultArm {
    pub fn err(error: &Id) -> (r: ResultArm)
        ensures
            r == ResultArm::Failure(*error),
    {
        ResultArm::Failure(error.clone())
    }
}

pub open spec fn result_arm_text(arm: ResultArm) -> Seq<char> {
    arm_text(arm_of(arm))
}

/// The variant of an effect result a reference or an arm selects.
#[derive(Debug, Clone, Copy, PartialEq, Eq, Structural)]
pub enum ResultVariant {
    Success,
    Failure,
}

/// How a rejectable transaction's execution ended.
#[derive(Debug, Clone, Copy, PartialEq, Eq, Structural)]
pub enum TransactionOutcome {
    Committed,
    Rejected,
}

pub open spec fn outcome_text(outcome: TransactionOutcome) -> Seq<char> {
    match outcome {
        TransactionOutcome::Committed => "committed"@,
        TransactionOutcome::Rejected => "rejected"@,
    }
}

impl TransactionOutcome {
    pub fn text(self) -> (r: &'static str)
        ensures
            r@ == outcome_text(self),
    {
        match self {
            TransactionOutcome::Committed => "committed",
            TransactionOutcome::Rejected => "rejected",
        }
    }
}

/// Where a step stands in its program: the one-based index of each
/// enclosing step and the arm entered below it, joined by dots, such
/// as `2.then.1`. The program itself is the empty location.
pub struct StepLocation {
    pub label: String,
}

impl Clone for StepLocation {
    fn clone(&self) -> (r: Self)
        ensures
            r == *self,
    {
        StepLocation { label: self.label.clone() }
    }
}

impl StepLocation {
    pub fn root() -> (r: StepLocation)
        ensures
            r.label@ == Seq::<char>::empty(),
    {
        StepLocation { label: String::new() }
    }
}

/// A dotted path into a schema's fields, such as `order.id`.
pub struct FieldPath {
    pub text: String,
}

impl Clone for FieldPath {
    fn clone(&self) -> (r: Self)
        ensures
            r == *self,
    {
        FieldPath { text: self.text.clone() }
    }
}

/// The source a value reference reads from.
pub enum ValueSource {
    Input(Id),
    Effect(Id),
    TransactionOutput(Id),
    StateMachineSubject(Id),
    TransactionRead(Id),
    EffectResultOk(Id),
    EffectResultErr(Id),
}

pub open spec fn source_id(source: ValueSource) -> Id {
    match source {
        ValueSource::Input(id)
        | ValueSource::Effect(id)
        | ValueSource::TransactionOutput(id)
        | ValueSource::StateMachineSubject(id)
        | ValueSource::TransactionRead(id)
        | ValueSource::EffectResultOk(id)
        | ValueSource::EffectResultErr(id) => id,
    }
}

impl ValueSource {
    /// The declaration the source names.
    pub fn id(&self) -> (r: &Id)
        ensures
            *r == source_id(*self),
    {
        match self {
            ValueSource::Input(id)
            | ValueSource::Effect(id)
            | ValueSource::TransactionOutput(id)
            | ValueSource::StateMachineSubject(id)
            | ValueSource::TransactionRead(id)
            | ValueSource::EffectResultOk(id)
            | ValueSource::EffectResultErr(id) => id,
        }
    }
}

impl Clone for ValueSource {
    fn clone(&self) -> (r: Self)
        ensures
            r == *self,
    {
        match self {
            ValueSource::Input(id) => ValueSource::Input(id.clone()),
            ValueSource::Effect(id) => ValueSource::Effect(id.clone()),
            ValueSource::TransactionOutput(id) => ValueSource::TransactionOutput(id.clone()),
            ValueSource::StateMachineSubject(id) => ValueSource::StateMachineSubject(id.clone()),
            ValueSource::TransactionRead(id) => ValueSource::TransactionRead(id.clone()),
            ValueSource::EffectResultOk(id) => ValueSource::EffectResultOk(id.clone()),
            ValueSource::EffectResultErr(id) => ValueSource::EffectResultErr(id.clone()),
        }
    }
}

/// A reference to one field of a source's payload.
pub struct ValueRef {
    pub source: ValueSource,
    pub path: FieldPath,
}

impl Clone for ValueRef {
    fn clone(&self) -> (r: Self)
        ensures
            r == *self,
    {
        ValueRef { source: self.source.clone(), path: self.path.clone() }
    }
}

/// How the values of an instance or a mutation are derived.
pub enum Derivation {
    /// No provenance is declared.
    Unspecified,
    /// A deterministic function of the listed roots.
    Deterministic { roots: Vec<ValueRef> },
}

impl Derivation {
    pub fn roots(&self) -> (r: &[ValueRef])
        ensures
            r@ == derivation_roots(*self),
    {
        match self {
            Derivation::Unspecified => &[],
            Derivation::Deterministic { roots } => roots.as_slice(),
        }
    }
}

pub open spec fn derivation_roots(derivation: Derivation) -> Seq<ValueRef> {
    match derivation {
        Derivation::Unspecified => Seq::empty(),
        Derivation::Deterministic { roots } => roots@,
    }
}

/// The condition a branch tests.
pub enum Condition {
    /// No fact about how the decision is made is declared.
    Unspecified,
    /// A deterministic function of the listed roots.
    Deterministic { roots: Vec<ValueRef> },
}

impl Condition {
    pub fn roots(&self) -> (r: &[ValueRef])
        ensures
            r@ == condition_roots(*self),
    {
        match self {
            Condition::Unspecified => &[],
            Condition::Deterministic { roots } => roots.as_slice(),
        }
    }
}

pub open spec fn condition_roots(condition: Condition) -> Seq<ValueRef> {
    match condition {
        Condition::Unspecified => Seq::empty(),
        Condition::Deterministic { roots } => roots@,
    }
}

/// What a `return` step answers a request with.
pub enum ResultOutcome {
    Success { values: Derivation },
    Failure { error: Id, values: Derivation },
}

impl ResultOutcome {
    pub fn values(&self) -> (r: &Derivation)
        ensures
            *r == outcome_values(*self),
    {
        match self {
            ResultOutcome::Success { values } | ResultOutcome::Failure { values, .. } => values,
        }
    }
}

pub open spec fn outcome_values(outcome: ResultOutcome) -> Derivation {
    match outcome {
        ResultOutcome::Success { values } | ResultOutcome::Failure { values, .. } => values,
    }
}

/// An effect contract as executed inline: the value references its
/// own declaration evaluates.
pub struct Effect {
    pub references: Vec<ValueRef>,
}

/// One handle a `join_all` waits on, with the binding its result gets.
pub struct AsyncJoin {
    pub handle: Id,
    pub bind: Option<Id>,
}

/// The key a requirement or a keyed commit is stated over.
pub struct IdempotencyKey {
    pub components: Vec<ValueRef>,
}

/// Whether a transaction deduplicates its commits.
pub enum IdempotencyGuarantee {
    Unspecified,
    NotDeduplicated,
    DeduplicatedBy { key: IdempotencyKey },
}

pub struct SerializabilityRequirement {
    pub key: ValueRef,
}

pub struct TransactionOrderingRequirement {
    pub key: ValueRef,
    pub position: ValueRef,
}

pub struct TransactionRequirements {
    pub serializability: Vec<SerializabilityRequirement>,
    pub ordering: Vec<TransactionOrderingRequirement>,
}

/// One step of a transaction body.
pub enum TransactionStep {
    Read { bind: Id, object: Id, roots: Vec<ValueRef> },
    Write { object: Id, roots: Vec<ValueRef> },
    Insert { object: Id, roots: Vec<ValueRef> },
    Delete { object: Id, roots: Vec<ValueRef> },
    EstablishTransactionOutput { bind: Id, values: Derivation },
    EstablishEffectIntent { bind: Id, effect: Id, values: Derivation },
    /// A state transition; `intents` are the bindings it gives the
    /// transition's side effects, `roots` the references its own
    /// declarations evaluate.
    Transition { machine: Id, transition: Id, intents: Vec<Id>, roots: Vec<ValueRef> },
}

impl TransactionStep {
    /// Every value reference the step evaluates.
    pub fn roots(&self) -> (r: &[ValueRef])
        ensures
            r@ == transaction_step_roots(*self),
    {
        match self {
            TransactionStep::Read { roots, .. }
            | TransactionStep::Write { roots, .. }
            | TransactionStep::Insert { roots, .. }
            | TransactionStep::Delete { roots, .. }
            | TransactionStep::Transition { roots, .. } => roots.as_slice(),
            TransactionStep::EstablishTransactionOutput { values, .. }
            | TransactionStep::EstablishEffectIntent { values, .. } => values.roots(),
        }
    }
}

pub open spec fn transaction_step_roots(step: TransactionStep) -> Seq<ValueRef> {
    match step {
        TransactionStep::Read { roots, .. }
        | TransactionStep::Write { roots, .. }
        | TransactionStep::Insert { roots, .. }
        | TransactionStep::Delete { roots, .. }
        | TransactionStep::Transition { roots, .. } => roots@,
        TransactionStep::EstablishTransactionOutput { values, .. }
        | TransactionStep::EstablishEffectIntent { values, .. } => derivation_roots(values),
    }
}

/// An inline transaction.
pub struct Transaction {
    pub id: Id,
    pub steps: Vec<TransactionStep>,
    pub idempotency: IdempotencyGuarantee,
    pub requirements: TransactionRequirements,
}

/// A structured, acyclic operation program.
pub struct OperationBlock {
    pub steps: Vec<OperationStep>,
}

pub struct TransactionExecution {
    pub transaction: Transaction,
    /// The block entered when the transaction rejects; present exactly
    /// when the transaction can reject.
    pub rejected: Option<OperationBlock>,
}

pub struct ExecuteEffectStep {
    pub effect_id: Id,
    pub effect: Effect,
    pub values: Derivation,
    pub bind: Option<Id>,
}

pub struct ExecuteEffectIntentStep {
    pub intent: Id,
    pub bind: Option<Id>,
}

pub struct ExecuteEffectAsyncStep {
    pub handle: Id,
    pub effect_id: Id,
    pub effect: Effect,
    pub values: Derivation,
}

pub struct ExecuteEffectIntentAsyncStep {
    pub intent: Id,
    pub handle: Id,
}

pub struct JoinAllStep {
    pub handles: Vec<AsyncJoin>,
}

pub struct RaceStep {
    pub handles: Vec<Id>,
    pub bind: Option<Id>,
}

/// The block handling one declared error class of a matched result.
pub struct ErrorArm {
    pub error: Id,
    pub block: OperationBlock,
}

pub struct MatchResultStep {
    pub result: Id,
    pub ok: OperationBlock,
    pub errors: Vec<ErrorArm>,
}

pub struct BranchStep {
    pub condition: Condition,
    pub then_block: OperationBlock,
    pub otherwise: Option<OperationBlock>,
}

pub struct ReturnStep {
    pub request: Id,
    pub outcome: ResultOutcome,
}

pub enum OperationStep {
    Transaction(TransactionExecution),
    ExecuteEffect(ExecuteEffectStep),
    ExecuteEffectIntent(ExecuteEffectIntentStep),
    ExecuteEffectAsync(ExecuteEffectAsyncStep),
    ExecuteEffectIntentAsync(ExecuteEffectIntentAsyncStep),
    JoinAll(JoinAllStep),
    Race(RaceStep),
    MatchResult(MatchResultStep),
    Branch(BranchStep),
    Return(ReturnStep),
    Complete,
}

} // verus!

verus! {

/// `parent` followed by the separator a child location needs.
pub open spec fn location_prefix(parent: Seq<char>) -> Seq<char> {
    if parent.len() == 0 {
        parent
    } else {
        parent + "."@
    }
}

/// The location of the step at `index` of the block entered through
/// `arm` below `parent`: its one-based index, after the parent's
/// location and the arm's name.
pub open spec fn child_location(parent: Seq<char>, arm: Option<Arm>, index: int) -> Seq<char> {
    match arm {
        Option::None => location_prefix(parent) + crate::text::decimal((index + 1) as nat),
        Option::Some(arm) => location_prefix(parent) + arm_text(arm) + "."@ + crate::text::decimal(
            (index + 1) as nat,
        ),
    }
}

impl OperationBlock {
    /// The location of the step at `index` of a block entered through
    /// `arm` below `parent`.
    pub fn location(parent: &StepLocation, arm: &Option<Arm>, index: usize) -> (r: StepLocation)
        requires
            index < usize::MAX,
        ensures
            r.label@ == child_location(parent.label@, *arm, index as int),
    {
        let mut label = String::new();
        if !parent.label.as_str().is_empty() {
            label.append(parent.label.as_str());
            label.append(".");
        }
        proof {
            assert(label@ =~= location_prefix(parent.label@));
        }
        match arm {
            Option::Some(arm) => {
                match arm {
                    Arm::Failure(error) => label.append(error.as_str()),
                    _ => label.append(arm.text()),
                }
                label.append(".");
            },
            Option::None => {},
        }
        crate::text::push_decimal(&mut label, index + 1);
        StepLocation { label }
    }
}

} // verus!

verus! {

/// The input a governing key is drawn from: the one input every
/// component is sourced from, when there is one.
pub open spec fn key_input(key: IdempotencyKey) -> Option<Id> {
    if key.components@.len() > 0 && key.components@[0].source is Input && forall|i: int|
        0 <= i < key.components@.len() ==> (#[trigger] key.components@[i]).source is Input
            && source_id(key.components@[i].source)@ == source_id(key.components@[0].source)@ {
        Option::Some(source_id(key.components@[0].source))
    } else {
        Option::None
    }
}

impl IdempotencyKey {
    /// The input every component of the key is sourced from, if one is.
    pub fn input(&self) -> (r: Option<&Id>)
        ensures
            match r {
                Option::Some(id) => key_input(*self) == Option::Some(*id),
                Option::None => key_input(*self) is None,
            },
    {
        if self.components.len() == 0 {
            return Option::None;
        }
        let first = match &self.components[0].source {
            ValueSource::Input(id) => id,
            _ => return Option::None,
        };
        let mut i: usize = 1;
        while i < self.components.len()
            invariant
                1 <= i <= self.components@.len(),
                self.components@[0].source == ValueSource::Input(*first),
                forall|k: int|
                    0 <= k < i ==> (#[trigger] self.components@[k]).source is Input && source_id(
                        self.components@[k].source,
                    )@ == first@,
            decreases self.components@.len() - i,
        {
            match &self.components[i].source {
                ValueSource::Input(id) => {
                    if *id != *first {
                        return Option::None;
                    }
                },
                _ => return Option::None,
            }
            i += 1;
        }
        Option::Some(first)
    }
}

} // verus!

verus! {

/// Whether a subscription may see one logical message more than once.
#[derive(Debug, Clone, Copy, PartialEq, Eq, Structural)]
pub enum DeliverySemantics {
    AtMostOnce,
    AtLeastOnce,
    Unspecified,
}

/// How an operation is invoked.
pub enum Input {
    /// Invoked by synchronous requests.
    Request,
    /// Invoked by deliveries of messages published on `topic`, with the
    /// delivery the subscription declares.
    Subscription { topic: Id, delivery: DeliverySemantics },
    /// Invoked by consumption of messages written to `outbox`.
    Outbox { outbox: Id },
}

/// Whether an idempotency requirement also asks that every attempt
/// return an equivalent result.
#[derive(Debug, Clone, Copy, PartialEq, Eq, Structural)]
pub enum ResultReplayRequirement {
    Unspecified,
    ReplayConsistent,
}

/// Repeated attempts sharing `key` produce the effects of a single
/// invocation.
pub struct IdempotencyRequirement {
    pub key: IdempotencyKey,
    pub result: ResultReplayRequirement,
}

/// What an interrupted invocation must be able to do.
#[derive(Debug, Clone, Copy, PartialEq, Eq, Structural)]
pub enum CompletionRequirement {
    /// It can be resumed to reach a terminal.
    Resumable,
    /// It is re-driven until it reaches a terminal.
    Guaranteed,
}

pub struct RecoverabilityRequirement {
    pub key: IdempotencyKey,
    pub completion: CompletionRequirement,
}

/// Same-key invocations take effect in their logical precedence.
pub struct OrderingRequirement {
    pub key: ValueRef,
}

pub struct OperationRequirements {
    pub idempotency: Vec<IdempotencyRequirement>,
    pub recoverability: Vec<RecoverabilityRequirement>,
    pub ordering: Vec<OrderingRequirement>,
}

pub struct Operation {
    /// The declared inputs, by identifier, in declaration order.
    pub inputs: Vec<(Id, Input)>,
    pub program: OperationBlock,
    pub requirements: OperationRequirements,
}

/// A data model, by the identifiers of the objects it declares.
pub struct DataModel {
    pub objects: Vec<Id>,
}

/// A state transition, by the identifiers of the side effects it
/// declares.
pub struct TransitionDeclaration {
    pub side_effects: Vec<Id>,
}

/// A state machine, by the identifiers of its states and transitions.
pub struct StateMachine {
    pub states: Vec<Id>,
    pub transitions: Vec<(Id, TransitionDeclaration)>,
}

/// The declared runtime realization, by the identifiers of its
/// execution pools, routers and storage layouts.
pub struct Runtime {
    pub execution_pools: Vec<Id>,
    pub routers: Vec<Id>,
    pub storage_layouts: Vec<Id>,
}

pub struct Model {
    pub revision: u64,
    /// The declared services, by identifier.
    pub services: Vec<Id>,
    /// The declared schemas, by identifier.
    pub schemas: Vec<Id>,
    /// The declared data models, by identifier.
    pub data_models: Vec<(Id, DataModel)>,
    /// The declared topics, by identifier.
    pub topics: Vec<Id>,
    /// The declared runtime realization, if any.
    pub runtime: Option<Runtime>,
    /// The declared state machines, by identifier.
    pub state_machines: Vec<(Id, StateMachine)>,
    /// The declared operations, by identifier, in declaration order.
    pub operations: Vec<(Id, Operation)>,
}

/// Whether some idempotency requirement of `operation` is keyed from
/// the input named `input`.
pub open spec fn keyed_from(operation: Operation, input: Seq<char>) -> bool {
    exists|i: int|
        0 <= i < operation.requirements.idempotency@.len() && key_from(
            #[trigger] operation.requirements.idempotency@[i].key,
            input,
        )
}

/// Whether `key` is drawn from the input named `input`.
pub open spec fn key_from(key: IdempotencyKey, input: Seq<char>) -> bool {
    key_input(key) matches Option::Some(id) && id@ == input
}

/// Whether duplicate invocations through `input` are some idempotency
/// requirement's obligation: the operation declares one keyed from it.
pub fn collapses_duplicates(operation: &Operation, input: &Id) -> (r: bool)
    ensures
        r == keyed_from(*operation, input@),
{
    let requirements = &operation.requirements.idempotency;
    let mut i: usize = 0;
    while i < requirements.len()
        invariant
            i <= requirements@.len(),
            *requirements == operation.requirements.idempotency,
            forall|k: int|
                0 <= k < i ==> !key_from(#[trigger] requirements@[k].key, input@),
        decreases requirements@.len() - i,
    {
        match requirements[i].key.input() {
            Option::Some(id) => {
                if *id == *input {
                    return true;
                }
            },
            Option::None => {},
        }
        i += 1;
    }
    false
}

} // verus!

verus! {

/// How dispatch assigns a routing domain's deliveries to the members of
/// an execution pool.
#[derive(Debug, Clone, Copy, PartialEq, Eq, Structural)]
pub enum MemberAssignment {
    /// One active member owns each routing domain.
    Exclusive,
    /// Members are rotated through irrespective of routing domain.
    RoundRobin,
    Unspecified,
}

/// How many invocations one member of an execution pool runs at once.
#[derive(Debug, Clone, Copy, PartialEq, Eq, Structural)]
pub enum MemberConcurrency {
    Bounded(usize),
    Unbounded,
    Unspecified,
}

} // verus!

verus! {

/// How an ordered cursor advances: to exactly the successor of the
/// stored position, or to any position after it.
#[derive(Debug, Clone, Copy, PartialEq, Eq, Structural)]
pub enum CursorAdvanceRule {
    Successor,
    Monotonic,
}

pub open spec fn cursor_rule_text(rule: CursorAdvanceRule) -> Seq<char> {
    match rule {
        CursorAdvanceRule::Successor => "successor"@,
        CursorAdvanceRule::Monotonic => "monotonic"@,
    }
}

impl CursorAdvanceRule {
    pub fn text(&self) -> (r: &'static str)
        ensures
            r@ == cursor_rule_text(*self),
    {
        match self {
            CursorAdvanceRule::Successor => "successor",
            CursorAdvanceRule::Monotonic => "monotonic",
        }
    }
}

} // verus!

verus! {

/// The transactions of the first `count` steps, in program order,
/// nested blocks included.
pub open spec fn steps_transactions(steps: Seq<OperationStep>, count: nat) -> Seq<Transaction>
    decreases steps, 1nat, count,
{
    if count == 0 || count > steps.len() {
        Seq::empty()
    } else {
        steps_transactions(steps, (count - 1) as nat) + step_transactions(steps[count - 1])
    }
}

/// The transactions of the first `count` error arms, in order.
pub open spec fn arms_transactions(arms: Seq<ErrorArm>, count: nat) -> Seq<Transaction>
    decreases arms, 1nat, count,
{
    if count == 0 || count > arms.len() {
        Seq::empty()
    } else {
        arms_transactions(arms, (count - 1) as nat) + steps_transactions(
            arms[count - 1].block.steps@,
            arms[count - 1].block.steps@.len(),
        )
    }
}

/// The transactions one step executes: a transaction itself, then
/// those of its `rejected` block; the blocks of a match or a branch, in
/// order.
pub open spec fn step_transactions(step: OperationStep) -> Seq<Transaction>
    decreases step, 0nat, 0nat,
{
    match step {
        OperationStep::Transaction(execution) => seq![execution.transaction] + match execution.rejected {
            Option::Some(block) => steps_transactions(block.steps@, block.steps@.len()),
            Option::None => Seq::empty(),
        },
        OperationStep::MatchResult(s) => steps_transactions(s.ok.steps@, s.ok.steps@.len())
            + arms_transactions(s.errors@, s.errors@.len()),
        OperationStep::Branch(s) => steps_transactions(
            s.then_block.steps@,
            s.then_block.steps@.len(),
        ) + match s.otherwise {
            Option::Some(block) => steps_transactions(block.steps@, block.steps@.len()),
            Option::None => Seq::empty(),
        },
        _ => Seq::empty(),
    }
}

/// The transactions a program executes, in program order.
pub open spec fn block_transactions(block: OperationBlock) -> Seq<Transaction> {
    steps_transactions(block.steps@, block.steps@.len())
}

pub open spec fn derefs<'a>(found: Seq<&'a Transaction>) -> Seq<Transaction> {
    found.map_values(|transaction: &'a Transaction| *transaction)
}

fn push_steps<'a>(steps: &'a Vec<OperationStep>, out: &mut Vec<&'a Transaction>)
    ensures
        derefs(final(out)@) == derefs(old(out)@) + steps_transactions(steps@, steps@.len()),
    decreases steps@, 1nat, 0nat,
{
    let ghost start = derefs(out@);
    let mut i: usize = 0;
    while i < steps.len()
        invariant
            i <= steps@.len(),
            derefs(out@) == start + steps_transactions(steps@, i as nat),
        decreases steps@.len() - i,
    {
        proof {
            assert(decreases_to!(steps@ => steps@[i as int]));
        }
        push_step(&steps[i], out);
        proof {
            assert(derefs(out@) =~= start + steps_transactions(steps@, (i + 1) as nat));
        }
        i += 1;
    }
}

fn push_step<'a>(step: &'a OperationStep, out: &mut Vec<&'a Transaction>)
    ensures
        derefs(final(out)@) == derefs(old(out)@) + step_transactions(*step),
    decreases *step, 0nat, 0nat,
{
    let ghost start = derefs(out@);
    match step {
        OperationStep::Transaction(execution) => {
            out.push(&execution.transaction);
            match &execution.rejected {
                Option::Some(block) => push_steps(&block.steps, out),
                Option::None => {},
            }
            proof {
                assert(derefs(out@) =~= start + step_transactions(*step));
            }
        },
        OperationStep::MatchResult(s) => {
            push_steps(&s.ok.steps, out);
            let ghost middle = derefs(out@);
            let mut i: usize = 0;
            while i < s.errors.len()
                invariant
                    i <= s.errors@.len(),
                    *step == OperationStep::MatchResult(*s),
                    derefs(out@) == middle + arms_transactions(s.errors@, i as nat),
                decreases s.errors@.len() - i,
            {
                proof {
                    let arm = s.errors@[i as int];
                    assert(decreases_to!(*step => (*step)->MatchResult_0));
                    assert(decreases_to!(*s => s.errors));
                    assert(decreases_to!(s.errors => s.errors@));
                    assert(decreases_to!(s.errors@ => arm));
                    assert(decreases_to!(arm => arm.block));
                    assert(decreases_to!(arm.block => arm.block.steps));
                    assert(decreases_to!(arm.block.steps => arm.block.steps@));
                }
                push_steps(&s.errors[i].block.steps, out);
                proof {
                    assert(derefs(out@) =~= middle + arms_transactions(s.errors@, (i + 1) as nat));
                }
                i += 1;
            }
            proof {
                assert(derefs(out@) =~= start + step_transactions(*step));
            }
        },
        OperationStep::Branch(s) => {
            push_steps(&s.then_block.steps, out);
            match &s.otherwise {
                Option::Some(block) => push_steps(&block.steps, out),
                Option::None => {},
            }
            proof {
                assert(derefs(out@) =~= start + step_transactions(*step));
            }
        },
        _ => {
            proof {
                assert(derefs(out@) =~= start + step_transactions(*step));
            }
        },
    }
}

impl OperationBlock {
    /// The transactions the program executes, in program order:
    /// nested blocks where they stand, a transaction before the blocks
    /// below it.
    pub fn transactions(&self) -> (r: Vec<&Transaction>)
        ensures
            derefs(r@) == block_transactions(*self),
    {
        let mut out: Vec<&Transaction> = Vec::new();
        push_steps(&self.steps, &mut out);
        proof {
            assert(derefs(out@) =~= block_transactions(*self));
        }
        out
    }
}


// Which steps a program holds.

/// Whether `target` is one of the first `count` steps, or a step a
/// block of one of them holds, at any depth.
pub open spec fn steps_hold(steps: Seq<OperationStep>, count: nat, target: OperationStep) -> bool
    decreases steps, 1nat, count,
{
    if count == 0 || count > steps.len() {
        false
    } else {
        steps_hold(steps, (count - 1) as nat, target) || steps[count - 1] == target || step_holds(
            steps[count - 1],
            target,
        )
    }
}

/// Whether a block of the first `count` error arms holds `target`.
pub open spec fn arms_hold(arms: Seq<ErrorArm>, count: nat, target: OperationStep) -> bool
    decreases arms, 1nat, count,
{
    if count == 0 || count > arms.len() {
        false
    } else {
        arms_hold(arms, (count - 1) as nat, target) || steps_hold(
            arms[count - 1].block.steps@,
            arms[count - 1].block.steps@.len(),
            target,
        )
    }
}

/// Whether a block `step` holds (a transaction's rejected block, the
/// arms of a match, the arms of a branch) holds `target`.
pub open spec fn step_holds(step: OperationStep, target: OperationStep) -> bool
    decreases step, 0nat, 0nat,
{
    match step {
        OperationStep::Transaction(execution) => match execution.rejected {
            Option::Some(block) => steps_hold(block.steps@, block.steps@.len(), target),
            Option::None => false,
        },
        OperationStep::MatchResult(s) => steps_hold(s.ok.steps@, s.ok.steps@.len(), target)
            || arms_hold(s.errors@, s.errors@.len(), target),
        OperationStep::Branch(s) => steps_hold(s.then_block.steps@, s.then_block.steps@.len(), target)
            || match s.otherwise {
            Option::Some(block) => steps_hold(block.steps@, block.steps@.len(), target),
            Option::None => false,
        },
        _ => false,
    }
}

/// Whether a program holds `target` as one of its steps, at any depth.
pub open spec fn program_holds(program: OperationBlock, target: OperationStep) -> bool {
    steps_hold(program.steps@, program.steps@.len(), target)
}

/// An element of either part is an element of the whole.
pub proof fn lemma_contains_concat<T>(first: Seq<T>, second: Seq<T>, item: T)
    ensures
        first.contains(item) ==> (first + second).contains(item),
        second.contains(item) ==> (first + second).contains(item),
{
    if first.contains(item) {
        let i = choose|i: int| 0 <= i < first.len() && first[i] == item;
        assert((first + second)[i] == item);
    }
    if second.contains(item) {
        let i = choose|i: int| 0 <= i < second.len() && second[i] == item;
        assert((first + second)[first.len() + i] == item);
    }
}

proof fn lemma_steps_transactions_hold(steps: Seq<OperationStep>, count: nat, execution: TransactionExecution)
    requires
        steps_hold(steps, count, OperationStep::Transaction(execution)),
    ensures
        steps_transactions(steps, count).contains(execution.transaction),
    decreases steps, 1nat, count,
{
    let target = OperationStep::Transaction(execution);
    let earlier = steps_transactions(steps, (count - 1) as nat);
    let here = step_transactions(steps[count - 1]);
    if steps_hold(steps, (count - 1) as nat, target) {
        lemma_steps_transactions_hold(steps, (count - 1) as nat, execution);
    } else if steps[count - 1] == target {
        assert(here[0] == execution.transaction);
    } else {
        assert(decreases_to!(steps => steps[count - 1]));
        lemma_step_transactions_hold(steps[count - 1], execution);
    }
    lemma_contains_concat(earlier, here, execution.transaction);
}

proof fn lemma_arms_transactions_hold(arms: Seq<ErrorArm>, count: nat, execution: TransactionExecution)
    requires
        arms_hold(arms, count, OperationStep::Transaction(execution)),
    ensures
        arms_transactions(arms, count).contains(execution.transaction),
    decreases arms, 1nat, count,
{
    let target = OperationStep::Transaction(execution);
    let arm = arms[count - 1];
    let earlier = arms_transactions(arms, (count - 1) as nat);
    let here = steps_transactions(arm.block.steps@, arm.block.steps@.len());
    if arms_hold(arms, (count - 1) as nat, target) {
        lemma_arms_transactions_hold(arms, (count - 1) as nat, execution);
    } else {
        assert(decreases_to!(arms => arms[count - 1]));
        lemma_steps_transactions_hold(arm.block.steps@, arm.block.steps@.len(), execution);
    }
    lemma_contains_concat(earlier, here, execution.transaction);
}

proof fn lemma_step_transactions_hold(step: OperationStep, execution: TransactionExecution)
    requires
        step_holds(step, OperationStep::Transaction(execution)),
    ensures
        step_transactions(step).contains(execution.transaction),
    decreases step, 0nat, 0nat,
{
    match step {
        OperationStep::Transaction(outer) => {
            let block = outer.rejected.unwrap();
            lemma_steps_transactions_hold(block.steps@, block.steps@.len(), execution);
            lemma_contains_concat(
                seq![outer.transaction],
                steps_transactions(block.steps@, block.steps@.len()),
                execution.transaction,
            );
        },
        OperationStep::MatchResult(s) => {
            let ok = steps_transactions(s.ok.steps@, s.ok.steps@.len());
            let arms = arms_transactions(s.errors@, s.errors@.len());
            if steps_hold(s.ok.steps@, s.ok.steps@.len(), OperationStep::Transaction(execution)) {
                lemma_steps_transactions_hold(s.ok.steps@, s.ok.steps@.len(), execution);
            } else {
                lemma_arms_transactions_hold(s.errors@, s.errors@.len(), execution);
            }
            lemma_contains_concat(ok, arms, execution.transaction);
        },
        OperationStep::Branch(s) => {
            let first = steps_transactions(s.then_block.steps@, s.then_block.steps@.len());
            let second = match s.otherwise {
                Option::Some(block) => steps_transactions(block.steps@, block.steps@.len()),
                Option::None => Seq::empty(),
            };
            if steps_hold(s.then_block.steps@, s.then_block.steps@.len(), OperationStep::Transaction(execution)) {
                lemma_steps_transactions_hold(s.then_block.steps@, s.then_block.steps@.len(), execution);
            } else {
                let block = s.otherwise.unwrap();
                lemma_steps_transactions_hold(block.steps@, block.steps@.len(), execution);
            }
            lemma_contains_concat(first, second, execution.transaction);
        },
        _ => {},
    }
}

/// Every transaction a program executes, at any depth (inside a
/// branch's arms, a match's arms or a rejected block), is among the
/// program's transactions.
pub proof fn lemma_program_transactions_complete(program: OperationBlock, execution: TransactionExecution)
    requires
        program_holds(program, OperationStep::Transaction(execution)),
    ensures
        block_transactions(program).contains(execution.transaction),
{
    lemma_steps_transactions_hold(program.steps@, program.steps@.len(), execution);
}


/// The result binding an effect-executing step declares, if any.
pub open spec fn result_binding(step: OperationStep) -> Option<Id> {
    match step {
        OperationStep::ExecuteEffect(s) => s.bind,
        OperationStep::ExecuteEffectIntent(s) => s.bind,
        _ => Option::None,
    }
}

} // verus!
