//! The vocabulary of replay stability: the records that say why a
//! root, an artifact, an effect instance, a bound result or a decision
//! is replay-stable relative to a governing key, or the gap that keeps
//! it from being, and the resolution of a governing key to the input
//! whose attempts it classes.
//!
//! Every record is relative to the governing key of the obligation
//! under proof and the attempt population it defines. Instability is
//! never proven: a gap records which fact is missing.

use vstd::prelude::*;

use crate::model::{
    Derivation, FieldPath, Id, IdempotencyKey, Operation, ResultVariant, StepLocation, Transaction,
    ValueRef, ValueSource,
};

use super::paths::{DecisionTaken, Terminal};

verus! {

/// Why a governing key cannot define a pre-execution equivalence class.
pub enum GoverningKeyDefect {
    /// An empty key places every attempt in one class.
    Empty,
    /// A component is sourced from mutable state, from an artifact the
    /// invocation itself produces, or from an observation it makes.
    ComponentNotFromInput { source: ValueSource },
    /// Components name more than one input.
    ComponentsFromMultipleInputs { first: Id, second: Id },
    /// The named input is not declared by the operation.
    InputNotDeclared { input: Id },
}

/// The first `count` key components scanned in turn: the input they
/// all name so far, if any, or the first defect found.
pub open spec fn key_scan(components: Seq<ValueRef>, count: nat) -> Result<Option<Id>, GoverningKeyDefect>
    decreases count,
{
    if count == 0 || count > components.len() {
        Result::Ok(Option::None)
    } else {
        match key_scan(components, (count - 1) as nat) {
            Result::Err(defect) => Result::Err(defect),
            Result::Ok(named) => match components[count - 1].source {
                ValueSource::Input(id) => match named {
                    Option::None => Result::Ok(Option::Some(id)),
                    Option::Some(first) => if first@ == id@ {
                        Result::Ok(Option::Some(first))
                    } else {
                        Result::Err(GoverningKeyDefect::ComponentsFromMultipleInputs { first, second: id })
                    },
                },
                source => Result::Err(GoverningKeyDefect::ComponentNotFromInput { source }),
            },
        }
    }
}

/// A defect found among the first components stays the scan's result.
proof fn lemma_key_scan_keeps_defect(components: Seq<ValueRef>, count: nat, later: nat)
    requires
        count <= later <= components.len(),
        key_scan(components, count) is Err,
    ensures
        key_scan(components, later) == key_scan(components, count),
    decreases later - count,
{
    if count < later {
        lemma_key_scan_keeps_defect(components, count, (later - 1) as nat);
    }
}

/// Whether the operation declares the input named `input`.
pub open spec fn declares_input(operation: Operation, input: Seq<char>) -> bool {
    exists|i: int| 0 <= i < operation.inputs@.len() && (#[trigger] operation.inputs@[i]).0@ == input
}

/// The triggering input a governing key defines its population over:
/// every component must name one input the operation declares.
pub open spec fn governing_input_of(operation: Operation, key: IdempotencyKey) -> Result<Id, GoverningKeyDefect> {
    match key_scan(key.components@, key.components@.len()) {
        Result::Err(defect) => Result::Err(defect),
        Result::Ok(Option::None) => Result::Err(GoverningKeyDefect::Empty),
        Result::Ok(Option::Some(input)) => if declares_input(operation, input@) {
            Result::Ok(input)
        } else {
            Result::Err(GoverningKeyDefect::InputNotDeclared { input })
        },
    }
}

/// Resolves a governing key to the declared input every component
/// names, or the defect that keeps it from defining a pre-execution
/// equivalence class.
pub fn governing_input(operation: &Operation, key: &IdempotencyKey) -> (r: Result<Id, GoverningKeyDefect>)
    ensures
        r == governing_input_of(*operation, *key),
{
    let mut named: Option<&Id> = Option::None;
    let mut i: usize = 0;
    while i < key.components.len()
        invariant
            i <= key.components@.len(),
            key_scan(key.components@, i as nat) == Result::<Option<Id>, GoverningKeyDefect>::Ok(
                match named {
                    Option::Some(id) => Option::Some(*id),
                    Option::None => Option::None,
                },
            ),
        decreases key.components@.len() - i,
    {
        match &key.components[i].source {
            ValueSource::Input(id) => match named {
                Option::None => {
                    named = Option::Some(id);
                },
                Option::Some(first) => {
                    if *first != *id {
                        proof {
                            lemma_key_scan_keeps_defect(
                                key.components@,
                                (i + 1) as nat,
                                key.components@.len(),
                            );
                        }
                        return Result::Err(
                            GoverningKeyDefect::ComponentsFromMultipleInputs {
                                first: first.clone(),
                                second: id.clone(),
                            },
                        );
                    }
                },
            },
            source => {
                proof {
                    lemma_key_scan_keeps_defect(key.components@, (i + 1) as nat, key.components@.len());
                }
                return Result::Err(GoverningKeyDefect::ComponentNotFromInput { source: source.clone() });
            },
        }
        i += 1;
    }
    let input = match named {
        Option::Some(input) => input,
        Option::None => {
            return Result::Err(GoverningKeyDefect::Empty);
        },
    };
    let mut k: usize = 0;
    while k < operation.inputs.len()
        invariant
            k <= operation.inputs@.len(),
            key_scan(key.components@, key.components@.len()) == Result::<
                Option<Id>,
                GoverningKeyDefect,
            >::Ok(Option::Some(*input)),
            forall|j: int| 0 <= j < k ==> (#[trigger] operation.inputs@[j]).0@ != input@,
        decreases operation.inputs@.len() - k,
    {
        if operation.inputs[k].0 == *input {
            proof {
                assert(operation.inputs@[k as int].0@ == input@);
            }
            return Result::Ok(input.clone());
        }
        k += 1;
    }
    Result::Err(GoverningKeyDefect::InputNotDeclared { input: input.clone() })
}

/// The rule that established a root as replay-stable.
pub enum StabilityRule {
    /// Pinned by the governing key.
    KeyComponent,
    /// Covered by a declared request or message identity the governing
    /// key pins.
    IdentifiedPayload,
    /// A reference into an artifact recovered from the single keyed
    /// commit of the named transaction.
    RecoveredArtifact { transaction: Id },
    /// A reference into an artifact reconstructed by natural replay of
    /// the named transaction.
    ReconstructedArtifact { transaction: Id },
    /// A reference into a bound effect result every attempt in the
    /// class observes equally.
    ReplayConsistentResult { result: Id, effect: Id },
    /// A reference into a terminal external result of a boundary that
    /// deduplicates by a class-fixed key.
    DeduplicatedExternalResult { result: Id, effect: Id, variant: ResultVariant },
}

pub struct StableRoot {
    pub root: ValueRef,
    pub rule: StabilityRule,
}

pub struct UnstableRoot {
    pub root: ValueRef,
    pub gap: StabilityGap,
}

/// Why no rule establishes a root as replay-stable.
pub enum StabilityGap {
    /// A non-key field of the triggering payload with no identity
    /// coverage.
    UnidentifiedPayloadField { input: Id, identity: PayloadIdentityGap },
    /// The root belongs to an input that does not trigger the
    /// key-bearing invocations.
    NotTriggeringInput { input: Id },
    /// Mutable persistent state.
    MutableSubjectState { machine: Id },
    /// Effect payloads are not stable roots.
    EffectPayloadRoot { effect: Id },
    /// A transaction-read result is never replay-stable.
    TransactionReadRoot { read: Id },
    /// The referenced artifact is established, but replay-available
    /// through neither route.
    ArtifactUnavailable {
        artifact: Id,
        transaction: Id,
        recovery: Vec<ReplayGap>,
        reconstruction: Vec<ReplayGap>,
    },
    /// The referenced artifact is not established before this point.
    ArtifactNotInContext { artifact: Id },
    /// The referenced result binding is not bound before this point.
    ResultNotInContext { result: Id },
    /// The referenced result is bound, but same-class attempts are not
    /// established to observe the same result.
    ResultUnstable { result: Id, effect: Id, gap: Box<ResultGap> },
}

/// Why the declared identities do not make the triggering payload
/// stable.
pub enum PayloadIdentityGap {
    NotDeclared,
    SchemaNotMapped { schema: Id },
    NotPinnedByKey { schema: Option<Id>, field: FieldPath },
}

/// A missing premise of a replay route.
pub enum ReplayGap {
    /// Recovery: the transaction declares no keyed commit.
    NoKeyedCommit,
    /// Recovery: a commit-key component is not replay-stable.
    CommitKeyRootUnstable { root: ValueRef, gap: StabilityGap },
    /// Reconstruction: the transaction applies a state transition.
    ContainsTransition,
    /// Reconstruction: the transaction inserts an object.
    ContainsInsert,
    /// Reconstruction: the transaction deletes objects.
    ContainsDelete,
    /// Reconstruction: a mutation target depends on an unstable root.
    MutationTargetRootUnstable { root: ValueRef, gap: StabilityGap },
    /// Reconstruction: a mutation declares no value provenance.
    MutationDerivationUnspecified,
    /// Reconstruction: a mutation value depends on an unstable root.
    MutationDerivationRootUnstable { root: ValueRef, gap: StabilityGap },
    /// Reconstruction: the artifact's establishment declares no value
    /// provenance.
    ArtifactDerivationUnspecified,
    /// Reconstruction: the artifact's values depend on an unstable
    /// root.
    ArtifactDerivationRootUnstable { root: ValueRef, gap: StabilityGap },
}

/// How an artifact reaches a retry, or why it does not.
pub enum ArtifactReplay {
    /// Recovered from the single keyed commit of the establishing
    /// transaction.
    Recovered { transaction: Id, key: Vec<StableRoot> },
    /// Reconstructed by natural replay.
    Reconstructed { transaction: Id, derivation: Vec<StableRoot> },
    /// Neither route holds; both routes' gaps are recorded.
    Unavailable { transaction: Id, recovery: Vec<ReplayGap>, reconstruction: Vec<ReplayGap> },
}

pub open spec fn replay_transaction(replay: ArtifactReplay) -> Id {
    match replay {
        ArtifactReplay::Recovered { transaction, .. }
        | ArtifactReplay::Reconstructed { transaction, .. }
        | ArtifactReplay::Unavailable { transaction, .. } => transaction,
    }
}

impl ArtifactReplay {
    /// The transaction that establishes the artifact.
    pub fn transaction(&self) -> (r: &Id)
        ensures
            *r == replay_transaction(*self),
    {
        match self {
            ArtifactReplay::Recovered { transaction, .. }
            | ArtifactReplay::Reconstructed { transaction, .. }
            | ArtifactReplay::Unavailable { transaction, .. } => transaction,
        }
    }

    /// Whether some route makes the artifact available to a retry.
    pub fn is_available(&self) -> (r: bool)
        ensures
            r == !(*self is Unavailable),
    {
        match self {
            ArtifactReplay::Unavailable { .. } => false,
            _ => true,
        }
    }
}

/// Why every attempt constructs the same logical effect instance.
pub enum InstanceStability {
    /// A direct execution whose derivation is replay-deterministic
    /// over the cited roots.
    ReplayDeterministic { roots: Vec<StableRoot> },
    /// An intent whose values were fixed at establishment.
    EstablishedIntent { intent: Id, replay: ArtifactReplay },
}

/// Why an effect instance is not class-fixed.
pub enum InstanceGap {
    DerivationUnspecified,
    RootsUnstable { roots: Vec<UnstableRoot> },
    IntentNotEstablished { intent: Id },
    IntentNotReplayAvailable {
        intent: Id,
        transaction: Id,
        recovery: Vec<ReplayGap>,
        reconstruction: Vec<ReplayGap>,
    },
}

/// Whether same-class attempts observe one result from a bound effect
/// execution, and why.
pub enum ResultReplay {
    Stable { effect: Id, rule: ResultStabilityRule },
    Unstable { effect: Id, gap: ResultGap },
}

pub enum ResultStabilityRule {
    /// The request instance is class-fixed and the target proves its
    /// result replay-consistent for the targeted input.
    ReplayConsistentTarget { operation: Id, input: Id, requirement: usize, instance: InstanceStability },
    /// The external boundary deduplicates by a class-fixed key and the
    /// observed variant is terminal.
    ExternalTerminalResult { variant: ResultVariant, key: Vec<StableRoot> },
}

/// Why a bound result is not established to be observed equally by
/// every attempt in the class.
pub enum ResultGap {
    InstanceNotClassFixed { gap: InstanceGap },
    RequestSchemaMismatch { expected: Id, actual: Id },
    TargetResultNotDeclared { operation: Id, input: Id },
    TargetResultUnproven { operation: Id, input: Id },
    ExternalNotDeduplicated,
    ExternalDeduplicationUnknown,
    ExternalDeduplicationKeyUnstable { roots: Vec<UnstableRoot> },
    ExternalErrorRetryable,
    ExternalErrorDispositionUnspecified,
    NoResultContract,
    RaceWinnerNondeterministic { candidates: Vec<Id> },
}

/// The replay judgments of one bound result, per observed variant.
pub struct BoundResult {
    pub success: ResultReplay,
    pub failure: ResultReplay,
}

impl BoundResult {
    /// The judgment for the observed variant.
    pub fn variant(&self, variant: ResultVariant) -> (r: &ResultReplay)
        ensures
            *r == match variant {
                ResultVariant::Success => self.success,
                ResultVariant::Failure => self.failure,
            },
    {
        match variant {
            ResultVariant::Success => &self.success,
            ResultVariant::Failure => &self.failure,
        }
    }
}

/// The analyzer's bookkeeping for one asynchronous launch.
pub struct AsyncLaunch {
    pub effect: Id,
    pub result: BoundResult,
}

/// What a path has made available so far: every established artifact
/// with its replay route, every bound result with its per-variant
/// judgments, and every launched handle.
pub struct PathContext {
    pub artifacts: Vec<(Id, ArtifactReplay)>,
    pub results: Vec<(Id, BoundResult)>,
    pub handles: Vec<(Id, AsyncLaunch)>,
}

/// Why every attempt in the class takes the same arm of a decision.
pub enum DecisionRule {
    /// The matched result is replay-stable.
    StableResult { result: Id, effect: Id, rule: ResultStabilityRule },
    /// The condition is a deterministic function of replay-stable
    /// roots.
    StableCondition { roots: Vec<StableRoot> },
    /// Every attempt resolves the one deduplicated commit.
    ResolvedCommit { transaction: Id, key: Vec<StableRoot> },
    /// Every continuation to a terminal is idempotency-inert.
    IdempotencyInertContinuation,
    /// A rejection commits nothing, so divergence between rejection
    /// and commit adds no duplicable work.
    OutcomeDivergenceAddsNoWork { transaction: Id },
}

/// Why a retry is not established to take the same arm.
pub enum DecisionGap {
    ConditionUnspecified,
    ConditionRootsUnstable { roots: Vec<UnstableRoot> },
    ResultNotInContext { result: Id },
    ResultUnstable { result: Id, effect: Id, gap: ResultGap },
}

/// A decision a proof cites: the arm taken and why every attempt
/// takes it.
pub struct DecisionReplay {
    pub decision: DecisionTaken,
    pub rule: DecisionRule,
}

/// One effect-executing site on a path.
pub enum EffectSite<'a> {
    Direct { effect: &'a Id, values: &'a Derivation },
    Intent { intent: &'a Id, effect: &'a Id },
    /// A transactional outbox write, executed as a step of the named
    /// transaction.
    OutboxWrite { effect: &'a Id, values: &'a Derivation, transaction: &'a Id },
}

pub open spec fn site_effect<'a>(site: EffectSite<'a>) -> &'a Id {
    match site {
        EffectSite::Direct { effect, .. }
        | EffectSite::Intent { effect, .. }
        | EffectSite::OutboxWrite { effect, .. } => effect,
    }
}

impl<'a> EffectSite<'a> {
    /// The executed effect.
    pub fn effect(&self) -> (r: &'a Id)
        ensures
            r == site_effect(*self),
    {
        match self {
            EffectSite::Direct { effect, .. }
            | EffectSite::Intent { effect, .. }
            | EffectSite::OutboxWrite { effect, .. } => effect,
        }
    }
}

/// One step of a path, judged in the context the path had built
/// before it.
pub enum TracedStep<'a> {
    Transaction {
        location: StepLocation,
        transaction: &'a Transaction,
        before: PathContext,
        recovery: Result<Vec<StableRoot>, Vec<ReplayGap>>,
        natural: Result<(), Vec<ReplayGap>>,
    },
    Effect {
        location: StepLocation,
        site: EffectSite<'a>,
        before: PathContext,
        instance: Result<InstanceStability, InstanceGap>,
        result: Option<(&'a Id, Box<BoundResult>)>,
    },
    Decision {
        location: StepLocation,
        taken: DecisionTaken,
        replay: Result<DecisionRule, DecisionGap>,
    },
}

/// A path walked to its end.
pub struct PathTrace<'a> {
    pub steps: Vec<TracedStep<'a>>,
    pub terminal: Terminal<'a>,
    /// The context at the terminal.
    pub end: PathContext,
}

} // verus!

verus! {

/// The decisions along traced steps a retry is not established to
/// take again, with the gap that keeps each from replaying.
pub open spec fn unstable_along<'a>(steps: Seq<TracedStep<'a>>) -> Seq<(DecisionTaken, DecisionGap)>
    decreases steps.len(),
{
    if steps.len() == 0 {
        Seq::empty()
    } else {
        unstable_along(steps.drop_last()) + match steps.last() {
            TracedStep::Decision { taken, replay: Result::Err(gap), .. } => seq![(taken, gap)],
            _ => Seq::empty(),
        }
    }
}

/// The decisions along traced steps that replay, with the fact that
/// fixes each arm.
pub open spec fn stable_along<'a>(steps: Seq<TracedStep<'a>>) -> Seq<(DecisionTaken, DecisionRule)>
    decreases steps.len(),
{
    if steps.len() == 0 {
        Seq::empty()
    } else {
        stable_along(steps.drop_last()) + match steps.last() {
            TracedStep::Decision { taken, replay: Result::Ok(rule), .. } => seq![(taken, rule)],
            _ => Seq::empty(),
        }
    }
}

impl<'a> PathTrace<'a> {
    /// Every decision on the path a retry is not established to take
    /// again, with its gap.
    pub fn unstable_decisions(&self) -> (r: Vec<(&DecisionTaken, &DecisionGap)>)
        ensures
            r@.len() == unstable_along(self.steps@).len(),
            forall|i: int|
                0 <= i < r@.len() ==> (*r@[i].0, *r@[i].1) == #[trigger] unstable_along(
                    self.steps@,
                )[i],
    {
        let mut found: Vec<(&DecisionTaken, &DecisionGap)> = Vec::new();
        let mut k: usize = 0;
        while k < self.steps.len()
            invariant
                k <= self.steps@.len(),
                found@.len() == unstable_along(self.steps@.take(k as int)).len(),
                forall|i: int|
                    0 <= i < found@.len() ==> (*found@[i].0, *found@[i].1) == #[trigger] unstable_along(
                        self.steps@.take(k as int),
                    )[i],
            decreases self.steps@.len() - k,
        {
            proof {
                assert(self.steps@.take(k + 1).drop_last() =~= self.steps@.take(k as int));
            }
            match &self.steps[k] {
                TracedStep::Decision { taken, replay: Result::Err(gap), .. } => {
                    found.push((taken, gap));
                },
                _ => {},
            }
            k += 1;
        }
        proof {
            assert(self.steps@.take(self.steps@.len() as int) =~= self.steps@);
        }
        found
    }

    /// Every decision on the path with the fact that fixes its arm.
    pub fn stable_decisions(&self) -> (r: Vec<(&DecisionTaken, &DecisionRule)>)
        ensures
            r@.len() == stable_along(self.steps@).len(),
            forall|i: int|
                0 <= i < r@.len() ==> (*r@[i].0, *r@[i].1) == #[trigger] stable_along(self.steps@)[i],
    {
        let mut found: Vec<(&DecisionTaken, &DecisionRule)> = Vec::new();
        let mut k: usize = 0;
        while k < self.steps.len()
            invariant
                k <= self.steps@.len(),
                found@.len() == stable_along(self.steps@.take(k as int)).len(),
                forall|i: int|
                    0 <= i < found@.len() ==> (*found@[i].0, *found@[i].1) == #[trigger] stable_along(
                        self.steps@.take(k as int),
                    )[i],
            decreases self.steps@.len() - k,
        {
            proof {
                assert(self.steps@.take(k + 1).drop_last() =~= self.steps@.take(k as int));
            }
            match &self.steps[k] {
                TracedStep::Decision { taken, replay: Result::Ok(rule), .. } => {
                    found.push((taken, rule));
                },
                _ => {},
            }
            k += 1;
        }
        proof {
            assert(self.steps@.take(self.steps@.len() as int) =~= self.steps@);
        }
        found
    }
}

} // verus!
