//! Verdicts for idempotency requirements: repeated attempts sharing a
//! governing key produce the effects of a single invocation.
//!
//! A proof that collapses duplicates through another boundary's proven
//! idempotency requirement is only as L0 as that requirement's proof:
//! scopes propagate along those dependencies until they are stable.

use vstd::prelude::*;

use crate::model::{key_input, FieldPath, Id, IdempotencyKey};

use super::paths::{DecisionTaken, Path, PathRef, PathStep, StepKind};
use crate::validation::availability::{id_set, IdSet};
use super::replay::{
    DecisionGap, DecisionReplay, GoverningKeyDefect, InstanceStability, ReplayGap, StableRoot,
    UnstableRoot,
};
use super::scope::ProofScope;
use crate::diagnostic::{Diagnostic, DiagnosticCode, Evidence, Severity, VerificationCode};

verus! {

/// The verdict for one declared idempotency requirement's side-effect
/// obligation.
pub struct IdempotencyCheck {
    pub operation: Id,
    /// Index into the operation's idempotency requirements.
    pub requirement: usize,
    /// The governing key, copied so the check is self-contained.
    pub key: IdempotencyKey,
    pub verdict: IdempotencyVerdict,
    /// Set when the proof holds only together with the proofs of the
    /// requirements it reaches, and theirs hold only with it.
    pub coinductive: bool,
    /// For a message-triggered population: per admitted schema and
    /// modeled producer, whether a declared propagation carries a key
    /// onto the identity fields the population rests on.
    pub lineage: Vec<IdentityLineage>,
}

/// How a message's declared identity relates to the key of the
/// declaration that produces it.
pub struct IdentityLineage {
    pub source: LineageSource,
    pub schema: Id,
    pub producer: ProducerRef,
    pub fact: LineageFact,
}

/// The message boundary whose declared identity anchors the lineage.
pub enum LineageSource {
    Topic { topic: Id },
    Outbox { outbox: Id },
}

pub enum ProducerRef {
    Operation { operation: Id, effect: Id },
    Transition { machine: Id, transition: Id, effect: Id },
}

pub enum LineageFact {
    /// The producer declares a propagation whose targets cover the
    /// identity fields; `requirement` names the producer's own
    /// idempotency requirement keyed by the source, when there is one.
    Propagated { source: IdempotencyKey, requirement: Option<usize> },
    /// No declared propagation carries a key onto the identity fields.
    Undeclared,
}

pub enum IdempotencyVerdict {
    Proven { argument: IdempotencyProof, scope: ProofScope },
    Unproven { obstacles: Vec<IdempotencyObstacle> },
}

pub enum IdempotencyProof {
    /// The triggering input admits no message schemas.
    NoAdmittedInvocations { input: Id },
    /// No admitted path exists for the triggering input.
    NoAdmittedPaths { input: Id },
    /// `at_most_once` delivery with the payload identity-pinned.
    SingleDelivery { input: Id, topic: Id },
    /// The outbox counterpart of `SingleDelivery`.
    SingleOutboxDelivery { input: Id, outbox: Id },
    /// Every admitted path is retry-safe in all three legs.
    RetrySafePaths { paths: Vec<PathRetrySafety> },
}

/// The retry-safety argument for one admitted path.
pub struct PathRetrySafety {
    pub path: PathRef,
    pub decisions: Vec<DecisionReplay>,
    pub transactions: Vec<TransactionRetrySafety>,
    pub effects: Vec<EffectRetrySafety>,
}

pub struct TransactionRetrySafety {
    pub transaction: Id,
    pub route: RetryRoute,
}

pub enum RetryRoute {
    /// At most one commit per class; re-encounters resolve it.
    KeyedCommit { key: Vec<StableRoot> },
    /// Re-execution reproduces the same logical state.
    NaturalReplay,
}

pub struct EffectRetrySafety {
    pub effect: Id,
    pub safety: EffectSafety,
}

pub enum EffectSafety {
    /// Duplicate applications of one keyed interaction are externally
    /// indistinguishable, and the identity key is class-stable.
    ExternallyIdempotent { identity_key: Vec<StableRoot> },
    /// The boundary declares itself side-effect-free.
    ExternallySideEffectFree,
    /// Every attempt publishes the same logical message and every
    /// modeled consumer collapses duplicate deliveries.
    SameLogicalMessage {
        topic: Id,
        schema: Id,
        instance: InstanceStability,
        consumers: Vec<ConsumerCollapse>,
    },
    /// Every attempt sends payload-equal requests into one class of the
    /// target's proven idempotency requirement.
    DeduplicatedByTarget { operation: Id, input: Id, instance: InstanceStability },
    /// The containing transaction deduplicates its commit by a
    /// class-stable key.
    TransactionDeduplicated { transaction: Id, key: Vec<StableRoot> },
    /// Every attempt admits the same logical outbox message and every
    /// modeled consumer collapses duplicate deliveries.
    SameLogicalOutboxMessage {
        outbox: Id,
        schema: Id,
        instance: InstanceStability,
        consumers: Vec<ConsumerCollapse>,
    },
}

/// How a modeled consumer of a published message collapses duplicate
/// deliveries of it.
pub enum ConsumerCollapse {
    /// The consumer's idempotency requirement keyed from the input is
    /// proven.
    ProvenRequirement { operation: Id, input: Id },
    /// The input's `at_most_once` delivery bounds one logical message
    /// to at most one delivery.
    SingleDelivery { operation: Id, input: Id },
}

pub enum IdempotencyObstacle {
    GoverningKeyInadmissible { defect: GoverningKeyDefect },
    PathDecisionUnstable { path: PathRef, decision: DecisionTaken, gap: DecisionGap },
    TransactionNotRetrySafe {
        path: PathRef,
        transaction: Id,
        recovery: Vec<ReplayGap>,
        reconstruction: Vec<ReplayGap>,
    },
    ExternalApplicationsDistinguishable { path: PathRef, effect: Id },
    ExternalIdempotencyUnknown { path: PathRef, effect: Id },
    ExternalIdentityKeyUnstable { path: PathRef, effect: Id, roots: Vec<UnstableRoot> },
    PublicationNotIdentified { path: PathRef, effect: Id, topic: Id, schema: Id },
    PublicationConsumerNotKeyed {
        path: PathRef,
        effect: Id,
        topic: Id,
        schema: Id,
        operation: Id,
        input: Id,
    },
    PublicationConsumerRequirementUnproven {
        path: PathRef,
        effect: Id,
        topic: Id,
        schema: Id,
        operation: Id,
        input: Id,
    },
    OutboxWriteNotIdentified { path: PathRef, effect: Id, transaction: Id, outbox: Id, schema: Id },
    OutboxConsumerNotKeyed {
        path: PathRef,
        effect: Id,
        outbox: Id,
        schema: Id,
        operation: Id,
        input: Id,
    },
    OutboxConsumerRequirementUnproven {
        path: PathRef,
        effect: Id,
        outbox: Id,
        schema: Id,
        operation: Id,
        input: Id,
    },
    EffectInstanceUnspecified { path: PathRef, effect: Id },
    EffectInstanceRootUnstable { path: PathRef, effect: Id, roots: Vec<UnstableRoot> },
    IntentNotEstablished { path: PathRef, intent: Id },
    IntentNotReplayAvailable {
        path: PathRef,
        intent: Id,
        transaction: Id,
        recovery: Vec<ReplayGap>,
        reconstruction: Vec<ReplayGap>,
    },
    RequestSchemaMismatch { path: PathRef, effect: Id, expected: Id, actual: Id },
    RequestTargetHasNoKeyedRequirement { path: PathRef, effect: Id, operation: Id, input: Id },
    RequestTargetRequirementUnproven { path: PathRef, effect: Id, operation: Id, input: Id },
}

// Scopes and dependencies.

/// A consumer collapses duplicates through a runtime fact exactly when
/// it relies on single delivery.
pub open spec fn consumer_runtime(consumer: ConsumerCollapse) -> bool {
    consumer is SingleDelivery
}

/// The consumers an effect's safety argument relies on.
pub open spec fn safety_consumers(safety: EffectSafety) -> Seq<ConsumerCollapse> {
    match safety {
        EffectSafety::SameLogicalMessage { consumers, .. }
        | EffectSafety::SameLogicalOutboxMessage { consumers, .. } => consumers@,
        _ => Seq::empty(),
    }
}

/// Whether an effect's safety argument consumed a runtime fact itself:
/// some consumer it relies on collapses duplicates by single delivery.
pub open spec fn effect_runtime(safety: EffectSafety) -> bool {
    exists|i: int|
        0 <= i < safety_consumers(safety).len() && consumer_runtime(
            #[trigger] safety_consumers(safety)[i],
        )
}

pub open spec fn as_scope(runtime: bool) -> ProofScope {
    if runtime {
        ProofScope::RuntimeDependent
    } else {
        ProofScope::L0Only
    }
}

/// Whether a proof consumed a runtime fact itself, before propagation
/// through the requirements it leans on.
pub open spec fn proof_runtime(argument: IdempotencyProof) -> bool {
    match argument {
        IdempotencyProof::NoAdmittedInvocations { .. }
        | IdempotencyProof::NoAdmittedPaths { .. } => false,
        IdempotencyProof::SingleDelivery { .. }
        | IdempotencyProof::SingleOutboxDelivery { .. } => true,
        IdempotencyProof::RetrySafePaths { paths } => exists|i: int, j: int|
            0 <= i < paths@.len() && 0 <= j < paths@[i].effects@.len() && effect_runtime(
                #[trigger] paths@[i].effects@[j].safety,
            ),
    }
}

/// The requirements of other boundaries an effect's safety rests on,
/// as `(operation, input)` pairs.
pub open spec fn consumer_dependencies(consumers: Seq<ConsumerCollapse>) -> Seq<(Id, Id)>
    decreases consumers.len(),
{
    if consumers.len() == 0 {
        Seq::empty()
    } else {
        consumer_dependencies(consumers.drop_last()) + match consumers.last() {
            ConsumerCollapse::ProvenRequirement { operation, input } => seq![(operation, input)],
            ConsumerCollapse::SingleDelivery { .. } => Seq::empty(),
        }
    }
}

pub open spec fn effect_dependencies(safety: EffectSafety) -> Seq<(Id, Id)> {
    match safety {
        EffectSafety::DeduplicatedByTarget { operation, input, .. } => seq![(operation, input)],
        EffectSafety::SameLogicalMessage { consumers, .. }
        | EffectSafety::SameLogicalOutboxMessage { consumers, .. } => consumer_dependencies(
            consumers@,
        ),
        _ => Seq::empty(),
    }
}

pub open spec fn effects_dependencies(effects: Seq<EffectRetrySafety>) -> Seq<(Id, Id)>
    decreases effects.len(),
{
    if effects.len() == 0 {
        Seq::empty()
    } else {
        effects_dependencies(effects.drop_last()) + effect_dependencies(effects.last().safety)
    }
}

pub open spec fn paths_dependencies(paths: Seq<PathRetrySafety>) -> Seq<(Id, Id)>
    decreases paths.len(),
{
    if paths.len() == 0 {
        Seq::empty()
    } else {
        paths_dependencies(paths.drop_last()) + effects_dependencies(paths.last().effects@)
    }
}

/// The requirements of other boundaries a proof rests on.
pub open spec fn proof_dependencies(argument: IdempotencyProof) -> Seq<(Id, Id)> {
    match argument {
        IdempotencyProof::RetrySafePaths { paths } => paths_dependencies(paths@),
        _ => Seq::empty(),
    }
}

pub(crate) fn copy_pair(operation: &Id, input: &Id) -> (r: (Id, Id))
    ensures
        r == (*operation, *input),
{
    (operation.clone(), input.clone())
}

impl EffectSafety {
    /// The layers this effect's argument consumed directly.
    pub fn direct_scope(&self) -> (r: ProofScope)
        ensures
            r == as_scope(effect_runtime(*self)),
    {
        match self {
            EffectSafety::SameLogicalMessage { consumers, .. }
            | EffectSafety::SameLogicalOutboxMessage { consumers, .. } => {
                let mut i: usize = 0;
                while i < consumers.len()
                    invariant
                        i <= consumers@.len(),
                        consumers@ == safety_consumers(*self),
                        forall|k: int| 0 <= k < i ==> !consumer_runtime(#[trigger] consumers@[k]),
                    decreases consumers@.len() - i,
                {
                    match &consumers[i] {
                        // The consumer never sees a second delivery: a
                        // fact about the realized transport.
                        ConsumerCollapse::SingleDelivery { .. } => {
                            proof {
                                assert(consumer_runtime(consumers@[i as int]));
                            }
                            return ProofScope::RuntimeDependent;
                        },
                        ConsumerCollapse::ProvenRequirement { .. } => {},
                    }
                    i += 1;
                }
                ProofScope::L0Only
            },
            // Transaction commit deduplication, target deduplication and
            // external declarations are L0 facts.
            _ => {
                proof {
                    assert(safety_consumers(*self).len() == 0);
                }
                ProofScope::L0Only
            },
        }
    }

    /// The requirements of other boundaries this effect's safety rests
    /// on.
    pub fn dependencies(&self) -> (r: Vec<(Id, Id)>)
        ensures
            r@ == effect_dependencies(*self),
    {
        let mut out: Vec<(Id, Id)> = Vec::new();
        match self {
            EffectSafety::DeduplicatedByTarget { operation, input, .. } => {
                out.push(copy_pair(operation, input));
                proof {
                    assert(out@ =~= effect_dependencies(*self));
                }
            },
            EffectSafety::SameLogicalMessage { consumers, .. }
            | EffectSafety::SameLogicalOutboxMessage { consumers, .. } => {
                let mut i: usize = 0;
                while i < consumers.len()
                    invariant
                        i <= consumers@.len(),
                        out@ == consumer_dependencies(consumers@.take(i as int)),
                    decreases consumers@.len() - i,
                {
                    proof {
                        assert(consumers@.take(i + 1).drop_last() =~= consumers@.take(i as int));
                    }
                    match &consumers[i] {
                        ConsumerCollapse::ProvenRequirement { operation, input } => {
                            out.push(copy_pair(operation, input));
                        },
                        ConsumerCollapse::SingleDelivery { .. } => {},
                    }
                    i += 1;
                }
                proof {
                    assert(consumers@.take(consumers@.len() as int) =~= consumers@);
                }
            },
            _ => {
                proof {
                    assert(out@ =~= effect_dependencies(*self));
                }
            },
        }
        out
    }
}

impl IdempotencyProof {
    /// The layers this proof consumed directly, before propagation
    /// through the requirements it leans on.
    pub fn direct_scope(&self) -> (r: ProofScope)
        ensures
            r == as_scope(proof_runtime(*self)),
    {
        match self {
            IdempotencyProof::NoAdmittedInvocations { .. }
            | IdempotencyProof::NoAdmittedPaths { .. } => ProofScope::L0Only,
            // `at_most_once` is a delivery fact, and delivery is L1.
            IdempotencyProof::SingleDelivery { .. }
            | IdempotencyProof::SingleOutboxDelivery { .. } => ProofScope::RuntimeDependent,
            IdempotencyProof::RetrySafePaths { paths } => {
                let mut i: usize = 0;
                while i < paths.len()
                    invariant
                        i <= paths@.len(),
                        *self == (IdempotencyProof::RetrySafePaths { paths: *paths }),
                        forall|a: int, b: int|
                            0 <= a < i && 0 <= b < paths@[a].effects@.len() ==> !effect_runtime(
                                #[trigger] paths@[a].effects@[b].safety,
                            ),
                    decreases paths@.len() - i,
                {
                    let effects = &paths[i].effects;
                    let mut j: usize = 0;
                    while j < effects.len()
                        invariant
                            i < paths@.len(),
                            *self == (IdempotencyProof::RetrySafePaths { paths: *paths }),
                            *effects == paths@[i as int].effects,
                            j <= effects@.len(),
                            forall|a: int, b: int|
                                0 <= a < i && 0 <= b < paths@[a].effects@.len() ==> !effect_runtime(
                                    #[trigger] paths@[a].effects@[b].safety,
                                ),
                            forall|b: int|
                                0 <= b < j ==> !effect_runtime(#[trigger] effects@[b].safety),
                        decreases effects@.len() - j,
                    {
                        if effects[j].safety.direct_scope() == ProofScope::RuntimeDependent {
                            proof {
                                assert(effect_runtime(paths@[i as int].effects@[j as int].safety));
                            }
                            return ProofScope::RuntimeDependent;
                        }
                        j += 1;
                    }
                    i += 1;
                }
                ProofScope::L0Only
            },
        }
    }

    /// The scope this proof carries when nothing it leans on is
    /// runtime-dependent. Propagation refines it.
    pub fn scope(&self) -> (r: ProofScope)
        ensures
            r == as_scope(proof_runtime(*self)),
    {
        self.direct_scope()
    }

    /// The idempotency requirements of other boundaries this proof
    /// rests on, whose own scope propagates into this one.
    pub fn dependencies(&self) -> (r: Vec<(Id, Id)>)
        ensures
            r@ == proof_dependencies(*self),
    {
        let mut out: Vec<(Id, Id)> = Vec::new();
        match self {
            IdempotencyProof::RetrySafePaths { paths } => {
                let mut i: usize = 0;
                while i < paths.len()
                    invariant
                        i <= paths@.len(),
                        out@ == paths_dependencies(paths@.take(i as int)),
                    decreases paths@.len() - i,
                {
                    proof {
                        assert(paths@.take(i + 1).drop_last() =~= paths@.take(i as int));
                    }
                    let effects = &paths[i].effects;
                    let ghost start = out@;
                    let mut j: usize = 0;
                    while j < effects.len()
                        invariant
                            j <= effects@.len(),
                            out@ == start + effects_dependencies(effects@.take(j as int)),
                        decreases effects@.len() - j,
                    {
                        proof {
                            assert(effects@.take(j + 1).drop_last() =~= effects@.take(j as int));
                        }
                        let mut more = effects[j].safety.dependencies();
                        let ghost before = out@;
                        out.append(&mut more);
                        proof {
                            assert(out@ =~= start + effects_dependencies(effects@.take(j + 1)));
                        }
                        j += 1;
                    }
                    proof {
                        assert(effects@.take(effects@.len() as int) =~= effects@);
                    }
                    i += 1;
                }
                proof {
                    assert(paths@.take(paths@.len() as int) =~= paths@);
                }
            },
            _ => {
                proof {
                    assert(out@ =~= proof_dependencies(*self));
                }
            },
        }
        out
    }
}


impl IdempotencyVerdict {
    /// A proven verdict carrying the scope its argument consumed
    /// directly.
    pub fn proven(argument: IdempotencyProof) -> (r: Self)
        ensures
            r == (IdempotencyVerdict::Proven {
                scope: as_scope(proof_runtime(argument)),
                argument,
            }),
    {
        let scope = argument.scope();
        IdempotencyVerdict::Proven { argument, scope }
    }
}

// Scope propagation.

/// A pair of identifiers by their text.
pub open spec fn pair_view(pair: (Id, Id)) -> (Seq<char>, Seq<char>) {
    (pair.0@, pair.1@)
}

/// Whether `pairs` holds a pair with the text of `pair`.
pub open spec fn holds_pair(pairs: Seq<(Id, Id)>, pair: (Seq<char>, Seq<char>)) -> bool {
    exists|k: int| 0 <= k < pairs.len() && pair_view(#[trigger] pairs[k]) == pair
}

/// The `(operation, input)` boundary a check's governing key is drawn
/// from, by text, when the key names one input.
pub open spec fn check_boundary(check: IdempotencyCheck) -> Option<(Seq<char>, Seq<char>)> {
    match key_input(check.key) {
        Option::Some(input) => Option::Some((check.operation@, input@)),
        Option::None => Option::None,
    }
}

pub open spec fn proven_with(check: IdempotencyCheck, scope: ProofScope) -> bool {
    check.verdict matches IdempotencyVerdict::Proven { scope: held, .. } && held == scope
}

pub open spec fn is_proven(check: IdempotencyCheck) -> bool {
    check.verdict is Proven
}

/// Whether `check` is proven by an argument that leans on the
/// requirement `other` checks.
pub open spec fn leans_on(check: IdempotencyCheck, other: IdempotencyCheck) -> bool {
    &&& check.verdict matches IdempotencyVerdict::Proven { argument, .. }
    &&& check_boundary(other) matches Option::Some(boundary)
    &&& holds_pair(proof_dependencies(argument), boundary)
}

/// `check` with its proof scope widened to `RuntimeDependent`; an
/// unproven check is unchanged.
pub open spec fn widened(check: IdempotencyCheck) -> IdempotencyCheck {
    IdempotencyCheck {
        operation: check.operation,
        requirement: check.requirement,
        key: check.key,
        verdict: match check.verdict {
            IdempotencyVerdict::Proven { argument, .. } => IdempotencyVerdict::Proven {
                argument,
                scope: ProofScope::RuntimeDependent,
            },
            IdempotencyVerdict::Unproven { obstacles } => IdempotencyVerdict::Unproven {
                obstacles,
            },
        },
        coinductive: check.coinductive,
        lineage: check.lineage,
    }
}

/// Whether the proof of `checks[i]` is runtime-dependent through a
/// chain of at most `depth` requirements it leans on: it consumed a
/// runtime fact itself, or it leans on a requirement that is.
pub open spec fn reaches_runtime(checks: Seq<IdempotencyCheck>, i: int, depth: nat) -> bool
    decreases depth,
{
    ||| proven_with(checks[i], ProofScope::RuntimeDependent)
    ||| depth > 0 && exists|j: int|
        0 <= j < checks.len() && #[trigger] leans_on(checks[i], checks[j]) && reaches_runtime(
            checks,
            j,
            (depth - 1) as nat,
        )
}

/// Each check of `after` is the one of `before`, or its `L0Only`
/// proof widened.
pub open spec fn widens(before: Seq<IdempotencyCheck>, after: Seq<IdempotencyCheck>) -> bool {
    &&& after.len() == before.len()
    &&& forall|k: int|
        0 <= k < before.len() ==> #[trigger] after[k] == before[k] || (proven_with(
            before[k],
            ProofScope::L0Only,
        ) && after[k] == widened(before[k]))
}

/// No `L0Only` proof leans on a runtime-dependent one.
pub open spec fn scopes_stable(checks: Seq<IdempotencyCheck>) -> bool {
    forall|i: int, j: int|
        0 <= i < checks.len() && 0 <= j < checks.len() && proven_with(
            #[trigger] checks[i],
            ProofScope::L0Only,
        ) && leans_on(checks[i], #[trigger] checks[j]) ==> !proven_with(
            checks[j],
            ProofScope::RuntimeDependent,
        )
}

/// The number of `L0Only` proofs.
pub open spec fn l0_count(checks: Seq<IdempotencyCheck>) -> nat
    decreases checks.len(),
{
    if checks.len() == 0 {
        0
    } else {
        l0_count(checks.drop_last()) + if proven_with(checks.last(), ProofScope::L0Only) {
            1nat
        } else {
            0nat
        }
    }
}

proof fn lemma_l0_count_fewer(before: Seq<IdempotencyCheck>, after: Seq<IdempotencyCheck>, k: int)
    requires
        after.len() == before.len(),
        forall|m: int|
            0 <= m < before.len() && proven_with(#[trigger] after[m], ProofScope::L0Only)
                ==> proven_with(before[m], ProofScope::L0Only),
        0 <= k < before.len(),
        proven_with(before[k], ProofScope::L0Only),
        !proven_with(after[k], ProofScope::L0Only),
    ensures
        l0_count(after) < l0_count(before),
    decreases before.len(),
{
    let n = before.len() - 1;
    if k < n {
        assert forall|m: int|
            0 <= m < n && proven_with(#[trigger] after.drop_last()[m], ProofScope::L0Only)
                implies proven_with(before.drop_last()[m], ProofScope::L0Only) by {
            assert(proven_with(after[m], ProofScope::L0Only));
        }
        lemma_l0_count_fewer(before.drop_last(), after.drop_last(), k);
    } else {
        lemma_l0_count_no_more(before.drop_last(), after.drop_last());
    }
}

proof fn lemma_l0_count_no_more(before: Seq<IdempotencyCheck>, after: Seq<IdempotencyCheck>)
    requires
        after.len() == before.len(),
        forall|m: int|
            0 <= m < before.len() && proven_with(#[trigger] after[m], ProofScope::L0Only)
                ==> proven_with(before[m], ProofScope::L0Only),
    ensures
        l0_count(after) <= l0_count(before),
    decreases before.len(),
{
    if before.len() > 0 {
        let n = before.len() - 1;
        assert forall|m: int|
            0 <= m < n && proven_with(#[trigger] after.drop_last()[m], ProofScope::L0Only)
                implies proven_with(before.drop_last()[m], ProofScope::L0Only) by {
            assert(proven_with(after[m], ProofScope::L0Only));
        }
        lemma_l0_count_no_more(before.drop_last(), after.drop_last());
        assert(proven_with(after[n], ProofScope::L0Only) ==> proven_with(
            before[n],
            ProofScope::L0Only,
        ));
    }
}

/// Once scopes are stable, every check that reaches a runtime fact is
/// runtime-dependent.
proof fn lemma_reaching_is_runtime(
    initial: Seq<IdempotencyCheck>,
    checks: Seq<IdempotencyCheck>,
    i: int,
    depth: nat,
)
    requires
        widens(initial, checks),
        scopes_stable(checks),
        0 <= i < initial.len(),
        reaches_runtime(initial, i, depth),
    ensures
        proven_with(checks[i], ProofScope::RuntimeDependent),
    decreases depth,
{
    if !proven_with(initial[i], ProofScope::RuntimeDependent) {
        let j = choose|j: int|
            0 <= j < initial.len() && #[trigger] leans_on(initial[i], initial[j])
                && reaches_runtime(initial, j, (depth - 1) as nat);
        lemma_reaching_is_runtime(initial, checks, j, (depth - 1) as nat);
        assert(checks[i] == initial[i] || checks[i] == widened(initial[i]));
        assert(checks[j] == initial[j] || checks[j] == widened(initial[j]));
        assert(leans_on(checks[i], checks[j]));
    }
}

/// The boundaries of the checks proven with `scope`.
fn proven_boundaries(checks: &Vec<IdempotencyCheck>, only_runtime: bool) -> (r: Vec<(Id, Id)>)
    ensures
        forall|pair: (Seq<char>, Seq<char>)|
            holds_pair(r@, pair) <==> exists|j: int|
                0 <= j < checks@.len() && #[trigger] check_boundary(checks@[j]) == Option::Some(
                    pair,
                ) && (if only_runtime {
                    proven_with(checks@[j], ProofScope::RuntimeDependent)
                } else {
                    is_proven(checks@[j])
                }),
{
    let mut out: Vec<(Id, Id)> = Vec::new();
    let mut i: usize = 0;
    while i < checks.len()
        invariant
            i <= checks@.len(),
            forall|k: int|
                0 <= k < out@.len() ==> exists|j: int|
                    0 <= j < i && #[trigger] check_boundary(checks@[j]) == Option::Some(
                        pair_view(#[trigger] out@[k]),
                    ) && (if only_runtime {
                        proven_with(checks@[j], ProofScope::RuntimeDependent)
                    } else {
                        is_proven(checks@[j])
                    }),
            forall|j: int|
                0 <= j < i && (if only_runtime {
                    proven_with(checks@[j], ProofScope::RuntimeDependent)
                } else {
                    is_proven(checks@[j])
                }) && #[trigger] check_boundary(checks@[j]) is Some ==> holds_pair(
                    out@,
                    check_boundary(checks@[j])->0,
                ),
        decreases checks@.len() - i,
    {
        let check = &checks[i];
        let wanted = match &check.verdict {
            IdempotencyVerdict::Proven { scope, .. } => !only_runtime || *scope
                == ProofScope::RuntimeDependent,
            IdempotencyVerdict::Unproven { .. } => false,
        };
        if wanted {
            match check.key.input() {
                Option::Some(input) => {
                    let ghost before = out@;
                    out.push(copy_pair(&check.operation, input));
                    proof {
                        assert(pair_view(out@[out@.len() - 1]) == check_boundary(
                            checks@[i as int],
                        )->0);
                        assert forall|j: int|
                            0 <= j < i + 1 && (if only_runtime {
                                proven_with(checks@[j], ProofScope::RuntimeDependent)
                            } else {
                                is_proven(checks@[j])
                            }) && #[trigger] check_boundary(checks@[j]) is Some implies holds_pair(
                            out@,
                            check_boundary(checks@[j])->0,
                        ) by {
                            if j < i {
                                let k = choose|k: int|
                                    0 <= k < before.len() && pair_view(#[trigger] before[k])
                                        == check_boundary(checks@[j])->0;
                                assert(out@[k] == before[k]);
                            } else {
                                assert(pair_view(out@[out@.len() - 1]) == check_boundary(
                                    checks@[j],
                                )->0);
                            }
                        }
                        assert forall|k: int| 0 <= k < out@.len() implies exists|j: int|
                            0 <= j < i + 1 && #[trigger] check_boundary(checks@[j])
                                == Option::Some(pair_view(#[trigger] out@[k])) && (
                            if only_runtime {
                                proven_with(checks@[j], ProofScope::RuntimeDependent)
                            } else {
                                is_proven(checks@[j])
                            }) by {
                            if k < before.len() {
                                assert(out@[k] == before[k]);
                            } else {
                                assert(check_boundary(checks@[i as int]) == Option::Some(
                                    pair_view(out@[k]),
                                ));
                            }
                        }
                    }
                },
                Option::None => {},
            }
        }
        i += 1;
    }
    proof {
        assert forall|pair: (Seq<char>, Seq<char>)|
            holds_pair(out@, pair) implies exists|j: int|
                0 <= j < checks@.len() && #[trigger] check_boundary(checks@[j]) == Option::Some(
                    pair,
                ) && (if only_runtime {
                    proven_with(checks@[j], ProofScope::RuntimeDependent)
                } else {
                    is_proven(checks@[j])
                }) by {
            let k = choose|k: int| 0 <= k < out@.len() && pair_view(#[trigger] out@[k]) == pair;
            assert(pair_view(out@[k]) == pair);
        }
    }
    out
}

/// The boundaries whose requirement is proven: what another proof may
/// lean on.
pub fn proven_set(checks: &Vec<IdempotencyCheck>) -> (r: Vec<(Id, Id)>)
    ensures
        forall|pair: (Seq<char>, Seq<char>)|
            holds_pair(r@, pair) <==> exists|j: int|
                0 <= j < checks@.len() && is_proven(checks@[j]) && #[trigger] check_boundary(
                    checks@[j],
                ) == Option::Some(pair),
{
    proven_boundaries(checks, false)
}

/// Whether some dependency of `argument` is in `runtime`.
fn leans_on_any(argument: &IdempotencyProof, runtime: &Vec<(Id, Id)>) -> (r: bool)
    ensures
        r <==> exists|k: int|
            0 <= k < proof_dependencies(*argument).len() && holds_pair(
                runtime@,
                pair_view(#[trigger] proof_dependencies(*argument)[k]),
            ),
{
    let dependencies = argument.dependencies();
    let mut k: usize = 0;
    while k < dependencies.len()
        invariant
            k <= dependencies@.len(),
            dependencies@ == proof_dependencies(*argument),
            forall|a: int|
                0 <= a < k ==> !holds_pair(runtime@, pair_view(#[trigger] dependencies@[a])),
        decreases dependencies@.len() - k,
    {
        let mut m: usize = 0;
        while m < runtime.len()
            invariant
                k < dependencies@.len(),
                dependencies@ == proof_dependencies(*argument),
                m <= runtime@.len(),
                forall|b: int|
                    0 <= b < m ==> pair_view(#[trigger] runtime@[b]) != pair_view(
                        dependencies@[k as int],
                    ),
            decreases runtime@.len() - m,
        {
            if runtime[m].0 == dependencies[k].0 && runtime[m].1 == dependencies[k].1 {
                proof {
                    assert(pair_view(runtime@[m as int]) == pair_view(dependencies@[k as int]));
                    assert(holds_pair(runtime@, pair_view(dependencies@[k as int])));
                }
                return true;
            }
            m += 1;
        }
        k += 1;
    }
    false
}

/// Widens proof scopes until they are stable.
///
/// A proof that collapses duplicates through another boundary's proven
/// idempotency requirement inherits that requirement's dependence on
/// the runtime realization. Scopes only ever widen from `L0Only` to
/// `RuntimeDependent`, so the iteration is monotone and terminates.
pub fn propagate_scopes(checks: &mut Vec<IdempotencyCheck>)
    ensures
        widens(old(checks)@, final(checks)@),
        scopes_stable(final(checks)@),
        forall|i: int|
            0 <= i < final(checks)@.len() ==> (proven_with(
                #[trigger] final(checks)@[i],
                ProofScope::RuntimeDependent,
            ) <==> exists|depth: nat| reaches_runtime(old(checks)@, i, depth)),
{
    let ghost initial = checks@;
    proof {
        assert forall|i: int|
            0 <= i < checks@.len() && proven_with(
                #[trigger] checks@[i],
                ProofScope::RuntimeDependent,
            ) implies exists|depth: nat| reaches_runtime(initial, i, depth) by {
            assert(reaches_runtime(initial, i, 0));
        }
    }
    loop
        invariant
            widens(initial, checks@),
            forall|i: int|
                0 <= i < checks@.len() && proven_with(
                    #[trigger] checks@[i],
                    ProofScope::RuntimeDependent,
                ) ==> exists|depth: nat| reaches_runtime(initial, i, depth),
        ensures
            widens(initial, checks@),
            scopes_stable(checks@),
            forall|i: int|
                0 <= i < checks@.len() && proven_with(
                    #[trigger] checks@[i],
                    ProofScope::RuntimeDependent,
                ) ==> exists|depth: nat| reaches_runtime(initial, i, depth),
        decreases l0_count(checks@),
    {
        let runtime = proven_boundaries(checks, true);
        let ghost start = checks@;
        let mut widened_any = false;
        let mut i: usize = 0;
        while i < checks.len()
            invariant
                widens(initial, start),
                forall|a: int|
                    0 <= a < start.len() && proven_with(
                        #[trigger] start[a],
                        ProofScope::RuntimeDependent,
                    ) ==> exists|depth: nat| reaches_runtime(initial, a, depth),
                forall|pair: (Seq<char>, Seq<char>)|
                    holds_pair(runtime@, pair) <==> exists|j: int|
                        0 <= j < start.len() && #[trigger] check_boundary(start[j])
                            == Option::Some(pair) && proven_with(
                            start[j],
                            ProofScope::RuntimeDependent,
                        ),
                i <= checks@.len(),
                widens(start, checks@),
                forall|a: int| i <= a < checks@.len() ==> #[trigger] checks@[a] == start[a],
                forall|a: int|
                    0 <= a < i && proven_with(#[trigger] checks@[a], ProofScope::L0Only)
                        ==> forall|j: int|
                        0 <= j < start.len() && leans_on(start[a], #[trigger] start[j])
                            ==> !proven_with(start[j], ProofScope::RuntimeDependent),
                forall|a: int|
                    0 <= a < i && checks@[a] != start[a] ==> exists|j: int|
                        0 <= j < start.len() && #[trigger] leans_on(start[a], start[j])
                            && proven_with(start[j], ProofScope::RuntimeDependent),
                widened_any ==> l0_count(checks@) < l0_count(start),
                !widened_any ==> checks@ == start,
            decreases checks@.len() - i,
        {
            let lean = match &checks[i].verdict {
                IdempotencyVerdict::Proven { argument, scope } => *scope == ProofScope::L0Only
                    && leans_on_any(argument, &runtime),
                IdempotencyVerdict::Unproven { .. } => false,
            };
            proof {
                let a = i as int;
                if lean {
                    let argument = start[a].verdict->argument;
                    let k = choose|k: int|
                        0 <= k < proof_dependencies(argument).len() && holds_pair(
                            runtime@,
                            pair_view(#[trigger] proof_dependencies(argument)[k]),
                        );
                    let pair = pair_view(proof_dependencies(argument)[k]);
                    let j = choose|j: int|
                        0 <= j < start.len() && #[trigger] check_boundary(start[j])
                            == Option::Some(pair) && proven_with(
                            start[j],
                            ProofScope::RuntimeDependent,
                        );
                    assert(leans_on(start[a], start[j]));
                } else if proven_with(start[a], ProofScope::L0Only) {
                    assert forall|j: int|
                        0 <= j < start.len() && leans_on(start[a], #[trigger] start[j])
                            implies !proven_with(start[j], ProofScope::RuntimeDependent) by {
                        let argument = start[a].verdict->argument;
                        let boundary = check_boundary(start[j])->0;
                        if proven_with(start[j], ProofScope::RuntimeDependent) {
                            assert(holds_pair(runtime@, boundary));
                            let k = choose|k: int|
                                0 <= k < proof_dependencies(argument).len() && pair_view(
                                    #[trigger] proof_dependencies(argument)[k],
                                ) == boundary;
                            assert(holds_pair(
                                runtime@,
                                pair_view(proof_dependencies(argument)[k]),
                            ));
                        }
                    }
                }
            }
            if lean {
                let ghost before = checks@;
                checks[i].verdict.widen();
                proof {
                    assert(checks@[i as int] == widened(start[i as int]));
                    assert(checks@ == before.update(i as int, widened(start[i as int])));
                    lemma_l0_count_fewer(start, checks@, i as int);
                }
                widened_any = true;
            }
            i += 1;
        }
        if !widened_any {
            proof {
                assert forall|a: int, j: int|
                    0 <= a < checks@.len() && 0 <= j < checks@.len() && proven_with(
                        #[trigger] checks@[a],
                        ProofScope::L0Only,
                    ) && leans_on(checks@[a], #[trigger] checks@[j]) implies !proven_with(
                        checks@[j],
                        ProofScope::RuntimeDependent,
                    ) by {
                    assert(checks@[a] == start[a]);
                    assert(checks@[j] == start[j]);
                }
            }
            break;
        }
        proof {
            assert forall|a: int|
                0 <= a < checks@.len() && proven_with(
                    #[trigger] checks@[a],
                    ProofScope::RuntimeDependent,
                ) implies exists|depth: nat| reaches_runtime(initial, a, depth) by {
                if checks@[a] != start[a] {
                    let j = choose|j: int|
                        0 <= j < start.len() && #[trigger] leans_on(start[a], start[j])
                            && proven_with(start[j], ProofScope::RuntimeDependent);
                    let depth = choose|depth: nat| reaches_runtime(initial, j, depth);
                    assert(start[a] == initial[a] || start[a] == widened(initial[a]));
                    assert(start[j] == initial[j] || start[j] == widened(initial[j]));
                    assert(leans_on(initial[a], initial[j]));
                    assert(reaches_runtime(initial, a, depth + 1));
                }
            }
            assert forall|k: int| 0 <= k < initial.len() implies #[trigger] checks@[k] == initial[k]
                || (proven_with(initial[k], ProofScope::L0Only) && checks@[k] == widened(
                initial[k],
            )) by {
                assert(start[k] == initial[k] || (proven_with(initial[k], ProofScope::L0Only)
                    && start[k] == widened(initial[k])));
                assert(checks@[k] == start[k] || (proven_with(start[k], ProofScope::L0Only)
                    && checks@[k] == widened(start[k])));
            }
        }
    }
    proof {
        assert forall|i: int|
            0 <= i < checks@.len() && exists|depth: nat| reaches_runtime(initial, i, depth)
                implies proven_with(#[trigger] checks@[i], ProofScope::RuntimeDependent) by {
            let depth = choose|depth: nat| reaches_runtime(initial, i, depth);
            lemma_reaching_is_runtime(initial, checks@, i, depth);
        }
    }
}

impl IdempotencyVerdict {
    /// Widens a proven verdict's scope to `RuntimeDependent`.
    fn widen(&mut self)
        ensures
            *final(self) == match *old(self) {
                IdempotencyVerdict::Proven { argument, .. } => IdempotencyVerdict::Proven {
                    argument,
                    scope: ProofScope::RuntimeDependent,
                },
                IdempotencyVerdict::Unproven { obstacles } => IdempotencyVerdict::Unproven {
                    obstacles,
                },
            },
    {
        match self {
            IdempotencyVerdict::Proven { scope, .. } => {
                *scope = ProofScope::RuntimeDependent;
            },
            IdempotencyVerdict::Unproven { .. } => {},
        }
    }
}

// Diagnostics.

pub open spec fn idempotency_message(check: IdempotencyCheck) -> Seq<char> {
    "Idempotency requirement "@ + crate::text::decimal(check.requirement as nat) + " of `"@
        + check.operation@
        + "` is not established: repeated attempts sharing the declared key are not proven to avoid externally distinguishable duplicate logical work."@
}

pub open spec fn idempotency_evidence_all(
    evidence: Seq<Evidence>,
    obstacles: Seq<IdempotencyObstacle>,
) -> bool {
    &&& evidence.len() == obstacles.len()
    &&& forall|i: int|
        0 <= i < obstacles.len() ==> (#[trigger] evidence[i]).subject
            == idempotency_evidence_subject(obstacles[i]) && evidence[i].message@
            == idempotency_evidence_text(obstacles[i])
}

/// `d` is the diagnostic of the unproven `check`: its code, unknown
/// severity, the operation as subject, its message, and one piece of
/// evidence per obstacle, in order.
pub open spec fn idempotency_diagnostic_is(d: Diagnostic, check: IdempotencyCheck) -> bool {
    &&& d.code == DiagnosticCode::Verification(VerificationCode::IdempotencyUnproven)
    &&& d.severity == Severity::Unknown
    &&& d.subject == Option::Some(check.operation)
    &&& d.message@ == idempotency_message(check)
    &&& check.verdict matches IdempotencyVerdict::Unproven { obstacles } && idempotency_evidence_all(d.evidence@, obstacles@)
}

impl IdempotencyCheck {
    /// The diagnostic for an unproven requirement; a proven one
    /// produces none.
    pub fn diagnostic(&self) -> (r: Option<Diagnostic>)
        ensures
            match self.verdict {
                IdempotencyVerdict::Proven { .. } => r is None,
                IdempotencyVerdict::Unproven { obstacles } => r matches Option::Some(d) && idempotency_diagnostic_is(d, *self),
            },
    {
        match &self.verdict {
            IdempotencyVerdict::Proven { .. } => Option::None,
            IdempotencyVerdict::Unproven { obstacles } => {
                let mut message = String::from_str("Idempotency requirement ");
                crate::text::push_decimal(&mut message, self.requirement);
                message.append(" of `");
                message.append(self.operation.as_str());
                message.append(
                    "` is not established: repeated attempts sharing the declared key are not proven to avoid externally distinguishable duplicate logical work.",
                );
                let mut evidence: Vec<Evidence> = Vec::new();
                let mut i: usize = 0;
                while i < obstacles.len()
                    invariant
                        i <= obstacles@.len(),
                        idempotency_evidence_all(evidence@, obstacles@.take(i as int)),
                    decreases obstacles@.len() - i,
                {
                    evidence.push(obstacles[i].evidence());
                    i += 1;
                }
                proof {
                    assert(obstacles@.take(obstacles@.len() as int) =~= obstacles@);
                }
                Option::Some(
                    Diagnostic {
                        code: DiagnosticCode::Verification(VerificationCode::IdempotencyUnproven),
                        severity: Severity::Unknown,
                        subject: Option::Some(self.operation.clone()),
                        message,
                        evidence,
                    },
                )
            },
        }
    }
}

pub open spec fn idempotency_evidence_subject(obstacle: IdempotencyObstacle) -> Option<Id> {
    match obstacle {
        IdempotencyObstacle::GoverningKeyInadmissible { defect } => super::describe::governing_key_subject(defect),
        IdempotencyObstacle::PathDecisionUnstable { path, decision, gap } => Option::None,
        IdempotencyObstacle::TransactionNotRetrySafe { path, transaction, recovery, reconstruction } => Option::Some(transaction),
        IdempotencyObstacle::ExternalApplicationsDistinguishable { path, effect } => Option::Some(effect),
        IdempotencyObstacle::ExternalIdempotencyUnknown { path, effect } => Option::Some(effect),
        IdempotencyObstacle::ExternalIdentityKeyUnstable { path, effect, roots } => Option::Some(effect),
        IdempotencyObstacle::PublicationNotIdentified { path, effect, topic, schema } => Option::Some(effect),
        IdempotencyObstacle::PublicationConsumerNotKeyed { path, effect, topic, schema, operation, input } => Option::Some(operation),
        IdempotencyObstacle::PublicationConsumerRequirementUnproven { path, effect, topic, schema, operation, input } => Option::Some(operation),
        IdempotencyObstacle::OutboxWriteNotIdentified { path, effect, transaction, outbox, schema } => Option::Some(effect),
        IdempotencyObstacle::OutboxConsumerNotKeyed { path, effect, outbox, schema, operation, input } => Option::Some(operation),
        IdempotencyObstacle::OutboxConsumerRequirementUnproven { path, effect, outbox, schema, operation, input } => Option::Some(operation),
        IdempotencyObstacle::EffectInstanceUnspecified { path, effect } => Option::Some(effect),
        IdempotencyObstacle::EffectInstanceRootUnstable { path, effect, roots } => Option::Some(effect),
        IdempotencyObstacle::IntentNotEstablished { path, intent } => Option::Some(intent),
        IdempotencyObstacle::IntentNotReplayAvailable { path, intent, transaction, recovery, reconstruction } => Option::Some(transaction),
        IdempotencyObstacle::RequestSchemaMismatch { path, effect, expected, actual } => Option::Some(effect),
        IdempotencyObstacle::RequestTargetHasNoKeyedRequirement { path, effect, operation, input } => Option::Some(effect),
        IdempotencyObstacle::RequestTargetRequirementUnproven { path, effect, operation, input } => Option::Some(operation),
    }
}

pub open spec fn idempotency_evidence_text(obstacle: IdempotencyObstacle) -> Seq<char> {
    match obstacle {
        IdempotencyObstacle::GoverningKeyInadmissible { defect } => super::describe::governing_key_text(defect),
        IdempotencyObstacle::PathDecisionUnstable { path, decision, gap } => "On "@ + super::describe::path_text(path) + ", "@ + super::describe::decision_text(decision) + " is not established to replay, so a retry may do different work: "@ + super::describe::decision_gap_text(gap) + "."@,
        IdempotencyObstacle::TransactionNotRetrySafe { path, transaction, recovery, reconstruction } => "A duplicate attempt re-drives "@ + super::describe::path_text(path) + " and re-encounters `"@ + transaction@ + "`, which is retry-safe by neither route. Recovery: "@ + super::describe::gaps_text(recovery@) + ". Reconstruction: "@ + super::describe::gaps_text(reconstruction@) + "."@,
        IdempotencyObstacle::ExternalApplicationsDistinguishable { path, effect } => super::describe::capitalized_path_text(path) + " applies external effect `"@ + effect@ + "`, declared `distinguishable`: a duplicate application may produce distinguishable modeled external work at that boundary."@,
        IdempotencyObstacle::ExternalIdempotencyUnknown { path, effect } => super::describe::capitalized_path_text(path) + " applies external effect `"@ + effect@ + "`, and no duplicate-side-effect fact is declared for that boundary."@,
        IdempotencyObstacle::ExternalIdentityKeyUnstable { path, effect, roots } => "External effect `"@ + effect@ + "` on "@ + super::describe::path_text(path) + " declares an interaction identity that is not replay-stable, so attempts may address different logical interactions: "@ + super::describe::unstable_roots_text(roots@, roots@.len()) + "."@,
        IdempotencyObstacle::PublicationNotIdentified { path, effect, topic, schema } => super::describe::capitalized_path_text(path) + " publishes `"@ + schema@ + "` to `"@ + topic@ + "` through `"@ + effect@ + "`, but the topic declares no message identity for that schema, so duplicate publications are not established to be the same logical message."@,
        IdempotencyObstacle::PublicationConsumerNotKeyed { path, effect, topic, schema, operation, input } => super::describe::capitalized_path_text(path) + " publishes `"@ + schema@ + "` to `"@ + topic@ + "` through `"@ + effect@ + "`, and `"@ + operation@ + "` consumes it through `"@ + input@ + "` with no idempotency requirement keyed from that input; nothing collapses the duplicate work a duplicate delivery causes there."@,
        IdempotencyObstacle::PublicationConsumerRequirementUnproven { path, effect, topic, schema, operation, input } => super::describe::capitalized_path_text(path) + " publishes `"@ + schema@ + "` to `"@ + topic@ + "` through `"@ + effect@ + "`, and `"@ + operation@ + "` consumes it through `"@ + input@ + "`, whose idempotency requirement is not proven in this analysis, so the duplicate work a duplicate delivery causes there is not established to collapse."@,
        IdempotencyObstacle::OutboxWriteNotIdentified { path, effect, transaction, outbox, schema } => super::describe::capitalized_path_text(path) + " admits `"@ + schema@ + "` to outbox `"@ + outbox@ + "` through `"@ + effect@ + "` in `"@ + transaction@ + "`; the transaction is not established to suppress a second commit, and the outbox declares no message identity for that schema, so repeated committed writes are not established to be the same logical message."@,
        IdempotencyObstacle::OutboxConsumerNotKeyed { path, effect, outbox, schema, operation, input } => super::describe::capitalized_path_text(path) + " admits `"@ + schema@ + "` to outbox `"@ + outbox@ + "` through `"@ + effect@ + "`, and `"@ + operation@ + "` consumes it through `"@ + input@ + "` with no idempotency requirement keyed from that input; nothing collapses the duplicate work a duplicate delivery causes there."@,
        IdempotencyObstacle::OutboxConsumerRequirementUnproven { path, effect, outbox, schema, operation, input } => super::describe::capitalized_path_text(path) + " admits `"@ + schema@ + "` to outbox `"@ + outbox@ + "` through `"@ + effect@ + "`, and `"@ + operation@ + "` consumes it through `"@ + input@ + "`, whose idempotency requirement is not proven in this analysis, so the duplicate work a duplicate delivery causes there is not established to collapse."@,
        IdempotencyObstacle::EffectInstanceUnspecified { path, effect } => super::describe::capitalized_path_text(path) + " executes `"@ + effect@ + "` with unspecified instance provenance, so the instances attempts construct are not class-fixed."@,
        IdempotencyObstacle::EffectInstanceRootUnstable { path, effect, roots } => "The instance `"@ + effect@ + "` constructs on "@ + super::describe::path_text(path) + " depends on roots that are not replay-stable: "@ + super::describe::unstable_roots_text(roots@, roots@.len()) + "."@,
        IdempotencyObstacle::IntentNotEstablished { path, intent } => super::describe::capitalized_path_text(path) + " executes intent `"@ + intent@ + "`, but no earlier step establishes it, so no class-fixed instance exists."@,
        IdempotencyObstacle::IntentNotReplayAvailable { path, intent, transaction, recovery, reconstruction } => "Intent `"@ + intent@ + "` on "@ + super::describe::path_text(path) + " is established by `"@ + transaction@ + "` but replay-available through neither route, so a retry's instance may differ. Recovery: "@ + super::describe::gaps_text(recovery@) + ". Reconstruction: "@ + super::describe::gaps_text(reconstruction@) + "."@,
        IdempotencyObstacle::RequestSchemaMismatch { path, effect, expected, actual } => "Request effect `"@ + effect@ + "` on "@ + super::describe::path_text(path) + " declares schema `"@ + actual@ + "`, but the targeted input declares `"@ + expected@ + "`, so payload equality does not transfer to the target's key."@,
        IdempotencyObstacle::RequestTargetHasNoKeyedRequirement { path, effect, operation, input } => "Request effect `"@ + effect@ + "` on "@ + super::describe::path_text(path) + " targets `"@ + operation@ + "` through `"@ + input@ + "`, which carries no idempotency requirement keyed from that input; nothing collapses duplicate invocations."@,
        IdempotencyObstacle::RequestTargetRequirementUnproven { path, effect, operation, input } => "Request effect `"@ + effect@ + "` on "@ + super::describe::path_text(path) + " targets `"@ + operation@ + "` through `"@ + input@ + "`, whose idempotency requirement is not proven in this analysis, so duplicate invocations are not established to collapse."@,
    }
}

impl IdempotencyObstacle {
    pub fn evidence(&self) -> (r: Evidence)
        ensures
            r.subject == idempotency_evidence_subject(*self),
            r.message@ == idempotency_evidence_text(*self),
    {
        match self {
            IdempotencyObstacle::GoverningKeyInadmissible { defect } => super::describe::governing_key_evidence(defect),
            IdempotencyObstacle::PathDecisionUnstable { path, decision, gap } => {
                let mut text = String::from_str("On ");
                let part1 = super::describe::describe_path(path);
                text.append(part1.as_str());
                text.append(", ");
                let part2 = super::describe::describe_decision(decision);
                text.append(part2.as_str());
                text.append(" is not established to replay, so a retry may do different work: ");
                let part3 = super::describe::decision_gap_sentence(gap);
                text.append(part3.as_str());
                text.append(".");
                Evidence { subject: Option::None, message: text }
            },
            IdempotencyObstacle::TransactionNotRetrySafe { path, transaction, recovery, reconstruction } => {
                let mut text = String::from_str("A duplicate attempt re-drives ");
                let part1 = super::describe::describe_path(path);
                text.append(part1.as_str());
                text.append(" and re-encounters `");
                text.append(transaction.as_str());
                text.append("`, which is retry-safe by neither route. Recovery: ");
                let part2 = super::describe::gap_sentences(recovery);
                text.append(part2.as_str());
                text.append(". Reconstruction: ");
                let part3 = super::describe::gap_sentences(reconstruction);
                text.append(part3.as_str());
                text.append(".");
                Evidence { subject: Option::Some(transaction.clone()), message: text }
            },
            IdempotencyObstacle::ExternalApplicationsDistinguishable { path, effect } => {
                let mut text = super::describe::capitalized_path(path);
                text.append(" applies external effect `");
                text.append(effect.as_str());
                text.append("`, declared `distinguishable`: a duplicate application may produce distinguishable modeled external work at that boundary.");
                Evidence { subject: Option::Some(effect.clone()), message: text }
            },
            IdempotencyObstacle::ExternalIdempotencyUnknown { path, effect } => {
                let mut text = super::describe::capitalized_path(path);
                text.append(" applies external effect `");
                text.append(effect.as_str());
                text.append("`, and no duplicate-side-effect fact is declared for that boundary.");
                Evidence { subject: Option::Some(effect.clone()), message: text }
            },
            IdempotencyObstacle::ExternalIdentityKeyUnstable { path, effect, roots } => {
                let mut text = String::from_str("External effect `");
                text.append(effect.as_str());
                text.append("` on ");
                let part1 = super::describe::describe_path(path);
                text.append(part1.as_str());
                text.append(" declares an interaction identity that is not replay-stable, so attempts may address different logical interactions: ");
                let part2 = super::describe::unstable_roots(roots);
                text.append(part2.as_str());
                text.append(".");
                Evidence { subject: Option::Some(effect.clone()), message: text }
            },
            IdempotencyObstacle::PublicationNotIdentified { path, effect, topic, schema } => {
                let mut text = super::describe::capitalized_path(path);
                text.append(" publishes `");
                text.append(schema.as_str());
                text.append("` to `");
                text.append(topic.as_str());
                text.append("` through `");
                text.append(effect.as_str());
                text.append("`, but the topic declares no message identity for that schema, so duplicate publications are not established to be the same logical message.");
                Evidence { subject: Option::Some(effect.clone()), message: text }
            },
            IdempotencyObstacle::PublicationConsumerNotKeyed { path, effect, topic, schema, operation, input } => {
                let mut text = super::describe::capitalized_path(path);
                text.append(" publishes `");
                text.append(schema.as_str());
                text.append("` to `");
                text.append(topic.as_str());
                text.append("` through `");
                text.append(effect.as_str());
                text.append("`, and `");
                text.append(operation.as_str());
                text.append("` consumes it through `");
                text.append(input.as_str());
                text.append("` with no idempotency requirement keyed from that input; nothing collapses the duplicate work a duplicate delivery causes there.");
                Evidence { subject: Option::Some(operation.clone()), message: text }
            },
            IdempotencyObstacle::PublicationConsumerRequirementUnproven { path, effect, topic, schema, operation, input } => {
                let mut text = super::describe::capitalized_path(path);
                text.append(" publishes `");
                text.append(schema.as_str());
                text.append("` to `");
                text.append(topic.as_str());
                text.append("` through `");
                text.append(effect.as_str());
                text.append("`, and `");
                text.append(operation.as_str());
                text.append("` consumes it through `");
                text.append(input.as_str());
                text.append("`, whose idempotency requirement is not proven in this analysis, so the duplicate work a duplicate delivery causes there is not established to collapse.");
                Evidence { subject: Option::Some(operation.clone()), message: text }
            },
            IdempotencyObstacle::OutboxWriteNotIdentified { path, effect, transaction, outbox, schema } => {
                let mut text = super::describe::capitalized_path(path);
                text.append(" admits `");
                text.append(schema.as_str());
                text.append("` to outbox `");
                text.append(outbox.as_str());
                text.append("` through `");
                text.append(effect.as_str());
                text.append("` in `");
                text.append(transaction.as_str());
                text.append("`; the transaction is not established to suppress a second commit, and the outbox declares no message identity for that schema, so repeated committed writes are not established to be the same logical message.");
                Evidence { subject: Option::Some(effect.clone()), message: text }
            },
            IdempotencyObstacle::OutboxConsumerNotKeyed { path, effect, outbox, schema, operation, input } => {
                let mut text = super::describe::capitalized_path(path);
                text.append(" admits `");
                text.append(schema.as_str());
                text.append("` to outbox `");
                text.append(outbox.as_str());
                text.append("` through `");
                text.append(effect.as_str());
                text.append("`, and `");
                text.append(operation.as_str());
                text.append("` consumes it through `");
                text.append(input.as_str());
                text.append("` with no idempotency requirement keyed from that input; nothing collapses the duplicate work a duplicate delivery causes there.");
                Evidence { subject: Option::Some(operation.clone()), message: text }
            },
            IdempotencyObstacle::OutboxConsumerRequirementUnproven { path, effect, outbox, schema, operation, input } => {
                let mut text = super::describe::capitalized_path(path);
                text.append(" admits `");
                text.append(schema.as_str());
                text.append("` to outbox `");
                text.append(outbox.as_str());
                text.append("` through `");
                text.append(effect.as_str());
                text.append("`, and `");
                text.append(operation.as_str());
                text.append("` consumes it through `");
                text.append(input.as_str());
                text.append("`, whose idempotency requirement is not proven in this analysis, so the duplicate work a duplicate delivery causes there is not established to collapse.");
                Evidence { subject: Option::Some(operation.clone()), message: text }
            },
            IdempotencyObstacle::EffectInstanceUnspecified { path, effect } => {
                let mut text = super::describe::capitalized_path(path);
                text.append(" executes `");
                text.append(effect.as_str());
                text.append("` with unspecified instance provenance, so the instances attempts construct are not class-fixed.");
                Evidence { subject: Option::Some(effect.clone()), message: text }
            },
            IdempotencyObstacle::EffectInstanceRootUnstable { path, effect, roots } => {
                let mut text = String::from_str("The instance `");
                text.append(effect.as_str());
                text.append("` constructs on ");
                let part1 = super::describe::describe_path(path);
                text.append(part1.as_str());
                text.append(" depends on roots that are not replay-stable: ");
                let part2 = super::describe::unstable_roots(roots);
                text.append(part2.as_str());
                text.append(".");
                Evidence { subject: Option::Some(effect.clone()), message: text }
            },
            IdempotencyObstacle::IntentNotEstablished { path, intent } => {
                let mut text = super::describe::capitalized_path(path);
                text.append(" executes intent `");
                text.append(intent.as_str());
                text.append("`, but no earlier step establishes it, so no class-fixed instance exists.");
                Evidence { subject: Option::Some(intent.clone()), message: text }
            },
            IdempotencyObstacle::IntentNotReplayAvailable { path, intent, transaction, recovery, reconstruction } => {
                let mut text = String::from_str("Intent `");
                text.append(intent.as_str());
                text.append("` on ");
                let part1 = super::describe::describe_path(path);
                text.append(part1.as_str());
                text.append(" is established by `");
                text.append(transaction.as_str());
                text.append("` but replay-available through neither route, so a retry's instance may differ. Recovery: ");
                let part2 = super::describe::gap_sentences(recovery);
                text.append(part2.as_str());
                text.append(". Reconstruction: ");
                let part3 = super::describe::gap_sentences(reconstruction);
                text.append(part3.as_str());
                text.append(".");
                Evidence { subject: Option::Some(transaction.clone()), message: text }
            },
            IdempotencyObstacle::RequestSchemaMismatch { path, effect, expected, actual } => {
                let mut text = String::from_str("Request effect `");
                text.append(effect.as_str());
                text.append("` on ");
                let part1 = super::describe::describe_path(path);
                text.append(part1.as_str());
                text.append(" declares schema `");
                text.append(actual.as_str());
                text.append("`, but the targeted input declares `");
                text.append(expected.as_str());
                text.append("`, so payload equality does not transfer to the target's key.");
                Evidence { subject: Option::Some(effect.clone()), message: text }
            },
            IdempotencyObstacle::RequestTargetHasNoKeyedRequirement { path, effect, operation, input } => {
                let mut text = String::from_str("Request effect `");
                text.append(effect.as_str());
                text.append("` on ");
                let part1 = super::describe::describe_path(path);
                text.append(part1.as_str());
                text.append(" targets `");
                text.append(operation.as_str());
                text.append("` through `");
                text.append(input.as_str());
                text.append("`, which carries no idempotency requirement keyed from that input; nothing collapses duplicate invocations.");
                Evidence { subject: Option::Some(effect.clone()), message: text }
            },
            IdempotencyObstacle::RequestTargetRequirementUnproven { path, effect, operation, input } => {
                let mut text = String::from_str("Request effect `");
                text.append(effect.as_str());
                text.append("` on ");
                let part1 = super::describe::describe_path(path);
                text.append(part1.as_str());
                text.append(" targets `");
                text.append(operation.as_str());
                text.append("` through `");
                text.append(input.as_str());
                text.append("`, whose idempotency requirement is not proven in this analysis, so duplicate invocations are not established to collapse.");
                Evidence { subject: Option::Some(operation.clone()), message: text }
            },
        }
    }
}



// Inert decisions.

/// Whether nothing but decisions follows step `index` of a path.
pub open spec fn decisions_only_after<'a>(steps: Seq<PathStep<'a>>, index: int) -> bool {
    forall|j: int| index < j < steps.len() ==> (#[trigger] steps[j]).kind is Decision
}

/// Whether step `index` of `path` is a decision at `location`, with an
/// effectful suffix after it when `effectful`, with none otherwise.
pub open spec fn decision_here<'a>(path: &Path<'a>, index: int, location: Seq<char>, effectful: bool) -> bool {
    &&& 0 <= index < path.steps@.len()
    &&& path.steps@[index].kind is Decision
    &&& path.steps@[index].location.label@ == location
    &&& decisions_only_after(path.steps@, index) == !effectful
}

/// Whether such a decision occurs among the steps of the paths before
/// step `steps` of path `count`, in path order.
pub open spec fn decision_seen<'a>(
    paths: Seq<&Path<'a>>,
    count: int,
    steps: int,
    location: Seq<char>,
    effectful: bool,
) -> bool {
    exists|k: int, i: int|
        0 <= k < paths.len() && (k < count || (k == count && i < steps)) && #[trigger] decision_here(
            paths[k],
            i,
            location,
            effectful,
        )
}

/// The decisions whose every occurrence, on every path, is followed by
/// nothing but decisions: choosing an arm there selects no work.
pub open spec fn inert_locations<'a>(paths: Seq<&Path<'a>>) -> Set<Seq<char>> {
    Set::new(
        |location: Seq<char>|
            decision_seen(paths, paths.len() as int, 0, location, false) && !decision_seen(
                paths,
                paths.len() as int,
                0,
                location,
                true,
            ),
    )
}

/// The locations of the decisions that are inert on every path that
/// reaches them.
pub fn idempotency_inert_decisions<'a>(paths: &Vec<&Path<'a>>) -> (r: IdSet)
    ensures
        r@ == inert_locations(paths@),
{
    let mut inert = IdSet::new();
    let mut disqualified = IdSet::new();
    let mut k: usize = 0;
    while k < paths.len()
        invariant
            k <= paths@.len(),
            forall|location: Seq<char>|
                #![trigger inert@.contains(location)]
                inert@.contains(location) <==> decision_seen(paths@, k as int, 0, location, false),
            forall|location: Seq<char>|
                #![trigger disqualified@.contains(location)]
                disqualified@.contains(location) <==> decision_seen(
                    paths@,
                    k as int,
                    0,
                    location,
                    true,
                ),
        decreases paths@.len() - k,
    {
        let path = paths[k];
        let mut i: usize = 0;
        while i < path.steps.len()
            invariant
                k < paths@.len(),
                path == paths@[k as int],
                i <= path.steps@.len(),
                forall|location: Seq<char>|
                    #![trigger inert@.contains(location)]
                    inert@.contains(location) <==> decision_seen(
                        paths@,
                        k as int,
                        i as int,
                        location,
                        false,
                    ),
                forall|location: Seq<char>|
                    #![trigger disqualified@.contains(location)]
                    disqualified@.contains(location) <==> decision_seen(
                        paths@,
                        k as int,
                        i as int,
                        location,
                        true,
                    ),
            decreases path.steps@.len() - i,
        {
            let step = &path.steps[i];
            if let StepKind::Decision { .. } = &step.kind {
                let mut effectful = false;
                let mut j: usize = i + 1;
                while j < path.steps.len()
                    invariant
                        i < j <= path.steps@.len(),
                        effectful == !(forall|m: int|
                            i < m < j ==> (#[trigger] path.steps@[m]).kind is Decision),
                    decreases path.steps@.len() - j,
                {
                    match &path.steps[j].kind {
                        StepKind::Decision { .. } => {},
                        _ => {
                            effectful = true;
                        },
                    }
                    j += 1;
                }
                let ghost label = step.location.label@;
                proof {
                    assert(decision_here(paths@[k as int], i as int, label, effectful));
                }
                if effectful {
                    disqualified.insert(step.location.label.clone());
                } else {
                    inert.insert(step.location.label.clone());
                }
            }
            proof {
                assert forall|location: Seq<char>|
                    decision_seen(paths@, k as int, (i + 1) as int, location, false)
                        == (decision_seen(paths@, k as int, i as int, location, false) || decision_here(
                        paths@[k as int],
                        i as int,
                        location,
                        false,
                    )) by {
                    if decision_seen(paths@, k as int, (i + 1) as int, location, false) {
                        let (a, b) = choose|a: int, b: int|
                            0 <= a < paths@.len() && (a < k || (a == k && b < i + 1))
                                && #[trigger] decision_here(paths@[a], b, location, false);
                        if !(a == k && b == i) {
                            assert(decision_seen(paths@, k as int, i as int, location, false));
                        }
                    }
                }
                assert forall|location: Seq<char>|
                    decision_seen(paths@, k as int, (i + 1) as int, location, true)
                        == (decision_seen(paths@, k as int, i as int, location, true) || decision_here(
                        paths@[k as int],
                        i as int,
                        location,
                        true,
                    )) by {
                    if decision_seen(paths@, k as int, (i + 1) as int, location, true) {
                        let (a, b) = choose|a: int, b: int|
                            0 <= a < paths@.len() && (a < k || (a == k && b < i + 1))
                                && #[trigger] decision_here(paths@[a], b, location, true);
                        if !(a == k && b == i) {
                            assert(decision_seen(paths@, k as int, i as int, location, true));
                        }
                    }
                }
            }
            i += 1;
        }
        proof {
            assert forall|location: Seq<char>, effectful: bool|
                decision_seen(paths@, (k + 1) as int, 0, location, effectful) == decision_seen(
                    paths@,
                    k as int,
                    path.steps@.len() as int,
                    location,
                    effectful,
                ) by {
                if decision_seen(paths@, k as int, path.steps@.len() as int, location, effectful) {
                    let (a, b) = choose|a: int, b: int|
                        0 <= a < paths@.len() && (a < k || (a == k && b < path.steps@.len()))
                            && #[trigger] decision_here(paths@[a], b, location, effectful);
                    assert(decision_seen(paths@, (k + 1) as int, 0, location, effectful));
                }
                if decision_seen(paths@, (k + 1) as int, 0, location, effectful) {
                    let (a, b) = choose|a: int, b: int|
                        0 <= a < paths@.len() && (a < k + 1 || (a == k + 1 && b < 0))
                            && #[trigger] decision_here(paths@[a], b, location, effectful);
                    assert(decision_seen(
                        paths@,
                        k as int,
                        path.steps@.len() as int,
                        location,
                        effectful,
                    ));
                }
            }
        }
        k += 1;
    }
    let mut kept = IdSet::new();
    let mut m: usize = 0;
    while m < inert.items.len()
        invariant
            m <= inert.items@.len(),
            forall|location: Seq<char>|
                #![trigger kept@.contains(location)]
                kept@.contains(location) <==> (!disqualified@.contains(location) && exists|q: int|
                    0 <= q < m && #[trigger] inert.items@[q]@ == location),
        decreases inert.items@.len() - m,
    {
        if !disqualified.contains(&inert.items[m]) {
            kept.insert(inert.items[m].clone());
        }
        proof {
            assert forall|location: Seq<char>|
                kept@.contains(location) <==> (!disqualified@.contains(location) && exists|q: int|
                    0 <= q < m + 1 && #[trigger] inert.items@[q]@ == location) by {
                if !disqualified@.contains(location) && exists|q: int|
                    0 <= q < m + 1 && #[trigger] inert.items@[q]@ == location {
                    let q = choose|q: int| 0 <= q < m + 1 && #[trigger] inert.items@[q]@ == location;
                    if q == m {
                        assert(kept@.contains(location));
                    }
                }
            }
        }
        m += 1;
    }
    proof {
        assert forall|location: Seq<char>| kept@.contains(location) <==> inert_locations(
            paths@,
        ).contains(location) by {
            assert(inert@.contains(location) <==> id_set(inert.items@).contains(location));
        }
        assert(kept@ =~= inert_locations(paths@));
    }
    kept
}


/// The safety argument of effect `e` on retry-safe path `p` of a
/// proof, if the proof has one there.
pub open spec fn effect_safety_at(argument: IdempotencyProof, p: int, e: int) -> Option<EffectSafety> {
    match argument {
        IdempotencyProof::RetrySafePaths { paths } => if 0 <= p < paths@.len() && 0 <= e
            < paths@[p].effects@.len() {
            Option::Some(paths@[p].effects@[e].safety)
        } else {
            Option::None
        },
        _ => Option::None,
    }
}

proof fn lemma_effects_dependencies_hold(effects: Seq<EffectRetrySafety>, e: int, operation: Id, input: Id)
    requires
        0 <= e < effects.len(),
        effects[e].safety matches EffectSafety::DeduplicatedByTarget { operation: o, input: i, .. }
            && o == operation && i == input,
    ensures
        holds_pair(effects_dependencies(effects), (operation@, input@)),
    decreases effects.len(),
{
    let earlier = effects_dependencies(effects.drop_last());
    let here = effect_dependencies(effects.last().safety);
    if e < effects.len() - 1 {
        assert(effects.drop_last()[e] == effects[e]);
        lemma_effects_dependencies_hold(effects.drop_last(), e, operation, input);
        let k = choose|k: int| 0 <= k < earlier.len() && pair_view(#[trigger] earlier[k]) == (operation@, input@);
        assert((earlier + here)[k] == earlier[k]);
    } else {
        assert(here[0] == (operation, input));
        assert((earlier + here)[earlier.len() as int] == here[0]);
    }
}

proof fn lemma_paths_dependencies_hold(paths: Seq<PathRetrySafety>, p: int, e: int, operation: Id, input: Id)
    requires
        0 <= p < paths.len(),
        0 <= e < paths[p].effects@.len(),
        paths[p].effects@[e].safety matches EffectSafety::DeduplicatedByTarget { operation: o, input: i, .. }
            && o == operation && i == input,
    ensures
        holds_pair(paths_dependencies(paths), (operation@, input@)),
    decreases paths.len(),
{
    let earlier = paths_dependencies(paths.drop_last());
    let here = effects_dependencies(paths.last().effects@);
    if p < paths.len() - 1 {
        assert(paths.drop_last()[p] == paths[p]);
        lemma_paths_dependencies_hold(paths.drop_last(), p, e, operation, input);
        let k = choose|k: int| 0 <= k < earlier.len() && pair_view(#[trigger] earlier[k]) == (operation@, input@);
        assert((earlier + here)[k] == earlier[k]);
    } else {
        lemma_effects_dependencies_hold(paths[p].effects@, e, operation, input);
        let k = choose|k: int| 0 <= k < here.len() && pair_view(#[trigger] here[k]) == (operation@, input@);
        assert((earlier + here)[earlier.len() + k] == here[k]);
    }
}

/// A proof that collapses an effect's duplicates through another
/// boundary's proven requirement is only as L0 as that requirement's
/// proof: where the checks propagation yields from `before` are the
/// result of `propagate_scopes`, a proof with an effect deduplicated by
/// the target `(operation, input)` is runtime-dependent once the check
/// of that boundary was proven runtime-dependent.
pub proof fn lemma_target_dedup_inherits_runtime(
    before: Seq<IdempotencyCheck>,
    after: Seq<IdempotencyCheck>,
    i: int,
    j: int,
    p: int,
    e: int,
    operation: Id,
    input: Id,
    target: EffectSafety,
)
    requires
        widens(before, after),
        forall|k: int|
            0 <= k < after.len() ==> (proven_with(#[trigger] after[k], ProofScope::RuntimeDependent)
                <==> exists|depth: nat| reaches_runtime(before, k, depth)),
        0 <= i < before.len(),
        0 <= j < before.len(),
        before[i].verdict is Proven,
        effect_safety_at(before[i].verdict->Proven_argument, p, e) == Option::Some(target),
        target matches EffectSafety::DeduplicatedByTarget { operation: o, input: n, .. } && o
            == operation && n == input,
        check_boundary(before[j]) == Option::Some((operation@, input@)),
        proven_with(before[j], ProofScope::RuntimeDependent),
    ensures
        proven_with(after[i], ProofScope::RuntimeDependent),
{
    let paths = before[i].verdict->Proven_argument->RetrySafePaths_paths;
    lemma_paths_dependencies_hold(paths@, p, e, operation, input);
    assert(leans_on(before[i], before[j]));
    assert(reaches_runtime(before, j, 0));
    assert(reaches_runtime(before, i, 1));
}

} // verus!
