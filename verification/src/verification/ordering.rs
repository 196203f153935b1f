//! Verdicts for ordering requirements: same-key invocations for which a
//! meaningful logical precedence exists preserve that precedence
//! through the operation's semantically relevant execution.
//!
//! Every ordering proof consumes topic-runtime, dispatch and pool
//! facts, so it is always `RuntimeDependent`, except the vacuous one,
//! which needs no facts at all.

use vstd::prelude::*;

use crate::diagnostic::{Diagnostic, DiagnosticCode, Evidence, Severity, VerificationCode};
use crate::model::{
    key_from, DeliverySemantics, FieldPath, Id, MemberAssignment, MemberConcurrency, ValueRef,
    ValueSource,
};

use super::describe::{describe_value_ref, value_ref_text};
use super::idempotency::{is_proven, IdempotencyCheck, IdempotencyVerdict};
use super::scope::{layers_joined, ProofScope, RemedyLayer};

verus! {

/// The verdict for one declared ordering requirement.
pub struct OrderingCheck {
    pub operation: Id,
    /// Index into the operation's ordering requirements.
    pub requirement: usize,
    /// The requirement's key, copied so the check is self-contained.
    pub key: ValueRef,
    pub verdict: OrderingVerdict,
}

pub enum OrderingVerdict {
    Proven { argument: OrderingProof, scope: ProofScope },
    Unproven { obstacles: Vec<OrderingObstacle> },
}

pub enum OrderingProof {
    /// The key's subscription input admits no message schemas, so no
    /// invocation bears the key and no precedence exists to preserve.
    NoAdmittedInvocations { input: Id },
    /// The transport's declared precedence, preserved by one owning
    /// member at concurrency one; redelivery cannot reorder it.
    RoutedOrder {
        input: Id,
        topic: Id,
        pool: Id,
        precedence: PrecedenceSource,
        member_assignment: MemberAssignment,
        duplicates: DuplicateHandling,
    },
    /// The outbox runtime's declared precedence, preserved by one
    /// owning member at concurrency one.
    OutboxRoutedOrder {
        input: Id,
        outbox: Id,
        pool: Id,
        precedence: OutboxPrecedence,
        member_assignment: MemberAssignment,
        duplicates: DuplicateHandling,
    },
}

/// Where the preserved precedence comes from.
#[derive(Debug, Clone, Copy, PartialEq, Eq, Structural)]
pub enum PrecedenceSource {
    /// The transport orders messages within a runtime group, and the
    /// ordering key is established to be that group's key.
    WithinGroup,
    /// The transport orders every message in scope.
    Global,
}

/// Where an outbox-preserved precedence comes from.
#[derive(Debug, Clone, Copy, PartialEq, Eq, Structural)]
pub enum OutboxPrecedence {
    /// The runtime orders messages within each keyed partition.
    Partition,
    /// The runtime orders every message it consumes.
    Global,
}

/// Why redelivery cannot invert the precedence, and who answers for
/// the work a duplicate does.
#[derive(Debug, Clone, Copy, PartialEq, Eq, Structural)]
pub enum DuplicateHandling {
    /// `at_most_once` delivery: a logical message is never delivered
    /// again.
    SingleDelivery,
    /// Dispatch preserves the established same-key precedence across
    /// redelivery; a duplicate of a completed delivery is the
    /// obligation of the idempotency requirement keyed from the input,
    /// named when one is declared.
    OrderPreservingRedelivery { idempotency: Option<DuplicateCoverage> },
}

/// The idempotency requirement that answers for duplicate attempts
/// through an input, and whether it is proven.
#[derive(Debug, Clone, Copy, PartialEq, Eq, Structural)]
pub struct DuplicateCoverage {
    pub requirement: usize,
    pub proven: bool,
}

pub enum OrderingObstacle {
    /// The key is not sourced from an input declared by the operation.
    KeyNotFromInput { source: ValueSource },
    /// Key-bearing invocations arrive through a request input, which
    /// has no precedence source.
    RequestInputHasNoPrecedenceSource { input: Id },
    /// Neither scope declares a transport precedence.
    NoTransportPrecedence { input: Id, topic: Id },
    /// No keyed grouping is declared at either scope.
    NoGroupingDomain { input: Id, topic: Id },
    /// Both the topic and the subscription declare transport semantics.
    TransportSemanticsAtBothScopes { input: Id, topic: Id },
    /// A declared grouping key maps a schema to an empty tuple.
    EmptyGroupingKey { input: Id, topic: Id, schema: Id },
    /// The member assignment gives a routing domain no single owner.
    MemberAssignmentNotExclusive { input: Id, declared: MemberAssignment },
    /// The grouping declares no key mapping for an admitted schema.
    GroupingKeyMappingMissing { input: Id, topic: Id, schema: Id },
    /// The grouping key is not established to carry the ordering key.
    KeyIdentityUnestablished { input: Id, topic: Id, schema: Id, grouping_key: FieldPath },
    /// The subscription declares no runtime.
    NoSubscriptionRuntime { input: Id },
    /// Dispatch declares no routing.
    RoutingAbsent { input: Id, pool: Id },
    /// The target execution pool is not declared.
    PoolUndeclared { input: Id, pool: Id },
    /// The pool's member concurrency admits overlap.
    MemberConcurrencyNotSerial { input: Id, pool: Id, declared: MemberConcurrency },
    /// The outbox input declares no runtime.
    NoOutboxRuntime { input: Id },
    /// The outbox runtime declares `ordering: none`.
    NoOutboxPrecedence { input: Id, outbox: Id },
    /// No keyed partitioning is declared.
    NoPartitionDomain { input: Id, outbox: Id },
    /// The keyed partitioning declares no mapping for a schema.
    OutboxPartitionMappingMissing { input: Id, outbox: Id, schema: Id },
    /// The partition mapping maps a schema to an empty tuple.
    EmptyOutboxPartitionKey { input: Id, outbox: Id, schema: Id },
    /// The partition key is not established to carry the ordering key.
    OutboxPartitionKeyNotEquivalent { input: Id, outbox: Id, schema: Id, partition_key: FieldPath },
    /// A batching stage's ordering preservation is unspecified.
    BatchOrderingUnspecified { input: Id, pool: Id },
}

pub open spec fn ordering_proof_scope(argument: OrderingProof) -> ProofScope {
    match argument {
        OrderingProof::NoAdmittedInvocations { .. } => ProofScope::L0Only,
        _ => ProofScope::RuntimeDependent,
    }
}

impl OrderingProof {
    pub fn scope(&self) -> (r: ProofScope)
        ensures
            r == ordering_proof_scope(*self),
    {
        match self {
            OrderingProof::NoAdmittedInvocations { .. } => ProofScope::L0Only,
            OrderingProof::RoutedOrder { .. } | OrderingProof::OutboxRoutedOrder { .. } => {
                ProofScope::RuntimeDependent
            },
        }
    }
}

impl OrderingVerdict {
    /// A proven verdict carrying its argument's scope.
    pub fn proven(argument: OrderingProof) -> (r: Self)
        ensures
            r == (OrderingVerdict::Proven { scope: ordering_proof_scope(argument), argument }),
    {
        let scope = argument.scope();
        OrderingVerdict::Proven { argument, scope }
    }
}

/// The layer an ordering obstacle's fix belongs to: a key no input
/// carries and a request boundary are the application's; everything
/// else is the runtime realization's.
pub open spec fn ordering_layer(obstacle: OrderingObstacle) -> RemedyLayer {
    match obstacle {
        OrderingObstacle::KeyNotFromInput { .. }
        | OrderingObstacle::RequestInputHasNoPrecedenceSource { .. } => RemedyLayer::Application,
        _ => RemedyLayer::Runtime,
    }
}

impl OrderingObstacle {
    /// The semantic layer this obstacle's fix belongs to.
    pub fn layer(&self) -> (r: RemedyLayer)
        ensures
            r == ordering_layer(*self),
    {
        match self {
            OrderingObstacle::KeyNotFromInput { .. }
            | OrderingObstacle::RequestInputHasNoPrecedenceSource { .. } => RemedyLayer::Application,
            _ => RemedyLayer::Runtime,
        }
    }
}

pub open spec fn ordering_layers(obstacles: Seq<OrderingObstacle>) -> Seq<RemedyLayer> {
    obstacles.map_values(|obstacle: OrderingObstacle| ordering_layer(obstacle))
}

/// The layer an ordering check waits on: none when proven.
pub open spec fn ordering_remedy(check: OrderingCheck) -> Option<RemedyLayer> {
    match check.verdict {
        OrderingVerdict::Proven { .. } => Option::None,
        OrderingVerdict::Unproven { obstacles } => layers_joined(ordering_layers(obstacles@)),
    }
}

impl OrderingCheck {
    /// Which layer holds the facts this check is waiting on, or `None`
    /// when it is proven.
    pub fn remedy(&self) -> (r: Option<RemedyLayer>)
        ensures
            r == ordering_remedy(*self),
    {
        match &self.verdict {
            OrderingVerdict::Proven { .. } => Option::None,
            OrderingVerdict::Unproven { obstacles } => {
                let mut layers: Vec<RemedyLayer> = Vec::new();
                let mut i: usize = 0;
                while i < obstacles.len()
                    invariant
                        i <= obstacles@.len(),
                        layers@ == ordering_layers(obstacles@.take(i as int)),
                    decreases obstacles@.len() - i,
                {
                    layers.push(obstacles[i].layer());
                    proof {
                        assert(ordering_layers(obstacles@.take(i + 1)) =~= ordering_layers(
                            obstacles@.take(i as int),
                        ).push(ordering_layer(obstacles@[i as int])));
                    }
                    i += 1;
                }
                proof {
                    assert(obstacles@.take(obstacles@.len() as int) =~= obstacles@);
                }
                RemedyLayer::joined(&layers)
            },
        }
    }
}

pub open spec fn ordering_message(check: OrderingCheck) -> Seq<char> {
    "Ordering requirement "@ + crate::text::decimal(check.requirement as nat) + " of `"@
        + check.operation@ + "` is not established: no declared facts prove that invocations sharing "@
        + value_ref_text(check.key) + " take effect in their logical precedence."@
}

/// `evidence` holds, in order, the evidence of each obstacle.
pub open spec fn ordering_evidence_all(
    evidence: Seq<Evidence>,
    obstacles: Seq<OrderingObstacle>,
    check: OrderingCheck,
) -> bool {
    &&& evidence.len() == obstacles.len()
    &&& forall|i: int|
        0 <= i < obstacles.len() ==> (#[trigger] evidence[i]).subject == ordering_evidence_subject(
            obstacles[i],
            check,
        ) && evidence[i].message@ == ordering_evidence_text(obstacles[i], check)
}

/// `d` is the diagnostic of the unproven `check`: its code, unknown
/// severity, the operation as subject, its message, and one piece of
/// evidence per obstacle, in order.
pub open spec fn ordering_diagnostic_is(d: Diagnostic, check: OrderingCheck) -> bool {
    &&& d.code == DiagnosticCode::Verification(VerificationCode::OrderingUnproven)
    &&& d.severity == Severity::Unknown
    &&& d.subject == Option::Some(check.operation)
    &&& d.message@ == ordering_message(check)
    &&& check.verdict matches OrderingVerdict::Unproven { obstacles } && ordering_evidence_all(d.evidence@, obstacles@, check)
}

impl OrderingCheck {
    /// The diagnostic for an unproven requirement; a proven one
    /// produces none.
    pub fn diagnostic(&self) -> (r: Option<Diagnostic>)
        ensures
            match self.verdict {
                OrderingVerdict::Proven { .. } => r is None,
                OrderingVerdict::Unproven { obstacles } => r matches Option::Some(d) && ordering_diagnostic_is(d, *self),
            },
    {
        match &self.verdict {
            OrderingVerdict::Proven { .. } => Option::None,
            OrderingVerdict::Unproven { obstacles } => {
                let mut message = String::from_str("Ordering requirement ");
                crate::text::push_decimal(&mut message, self.requirement);
                message.append(" of `");
                message.append(self.operation.as_str());
                message.append(
                    "` is not established: no declared facts prove that invocations sharing ",
                );
                let key = describe_value_ref(&self.key);
                message.append(key.as_str());
                message.append(" take effect in their logical precedence.");
                let mut evidence: Vec<Evidence> = Vec::new();
                let mut i: usize = 0;
                while i < obstacles.len()
                    invariant
                        i <= obstacles@.len(),
                        ordering_evidence_all(evidence@, obstacles@.take(i as int), *self),
                    decreases obstacles@.len() - i,
                {
                    evidence.push(obstacles[i].evidence(self));
                    i += 1;
                }
                proof {
                    assert(obstacles@.take(obstacles@.len() as int) =~= obstacles@);
                }
                Option::Some(
                    Diagnostic {
                        code: DiagnosticCode::Verification(VerificationCode::OrderingUnproven),
                        severity: Severity::Unknown,
                        subject: Option::Some(self.operation.clone()),
                        message,
                        evidence,
                    },
                )
            },
        }
    }
}

/// The first check among `checks` of an idempotency requirement of
/// `operation` keyed from `input`, as coverage of duplicate attempts.
pub open spec fn first_coverage(
    checks: Seq<IdempotencyCheck>,
    operation: Seq<char>,
    input: Seq<char>,
) -> Option<DuplicateCoverage>
    decreases checks.len(),
{
    if checks.len() == 0 {
        Option::None
    } else if checks[0].operation@ == operation && key_from(checks[0].key, input) {
        Option::Some(
            DuplicateCoverage { requirement: checks[0].requirement, proven: is_proven(checks[0]) },
        )
    } else {
        first_coverage(checks.drop_first(), operation, input)
    }
}

pub open spec fn duplicate_handling_of(
    operation: Seq<char>,
    input: Seq<char>,
    delivery: DeliverySemantics,
    checks: Seq<IdempotencyCheck>,
) -> DuplicateHandling {
    match delivery {
        DeliverySemantics::AtMostOnce => DuplicateHandling::SingleDelivery,
        _ => DuplicateHandling::OrderPreservingRedelivery {
            idempotency: first_coverage(checks, operation, input),
        },
    }
}

/// Who answers for the work a duplicate delivery does, from the
/// delivery fact and the idempotency verdicts.
pub fn duplicate_handling(
    operation: &Id,
    input: &Id,
    delivery: DeliverySemantics,
    idempotency: &Vec<IdempotencyCheck>,
) -> (r: DuplicateHandling)
    ensures
        r == duplicate_handling_of(operation@, input@, delivery, idempotency@),
{
    match delivery {
        DeliverySemantics::AtMostOnce => DuplicateHandling::SingleDelivery,
        DeliverySemantics::AtLeastOnce | DeliverySemantics::Unspecified => {
            proof {
                assert(idempotency@.skip(0) =~= idempotency@);
            }
            let mut i: usize = 0;
            while i < idempotency.len()
                invariant
                    i <= idempotency@.len(),
                    delivery != DeliverySemantics::AtMostOnce,
                    first_coverage(idempotency@, operation@, input@) == first_coverage(
                        idempotency@.skip(i as int),
                        operation@,
                        input@,
                    ),
                decreases idempotency@.len() - i,
            {
                let check = &idempotency[i];
                proof {
                    assert(idempotency@.skip(i as int).drop_first() =~= idempotency@.skip(i + 1));
                }
                let keyed = match check.key.input() {
                    Option::Some(id) => *id == *input,
                    Option::None => false,
                };
                proof {
                    assert(idempotency@.skip(i as int)[0] == idempotency@[i as int]);
                    assert(keyed == key_from(check.key, input@));
                }
                if check.operation == *operation && keyed {
                    let proven = match &check.verdict {
                        IdempotencyVerdict::Proven { .. } => true,
                        IdempotencyVerdict::Unproven { .. } => false,
                    };
                    return DuplicateHandling::OrderPreservingRedelivery {
                        idempotency: Option::Some(
                            DuplicateCoverage { requirement: check.requirement, proven },
                        ),
                    };
                }
                i += 1;
            }
            DuplicateHandling::OrderPreservingRedelivery { idempotency: Option::None }
        },
    }
}

pub open spec fn ordering_evidence_subject(obstacle: OrderingObstacle, check: OrderingCheck) -> Option<Id> {
    match obstacle {
        OrderingObstacle::KeyNotFromInput { source } => Option::Some(check.operation),
        OrderingObstacle::RequestInputHasNoPrecedenceSource { input } => Option::Some(input),
        OrderingObstacle::NoTransportPrecedence { input, topic } => Option::Some(topic),
        OrderingObstacle::TransportSemanticsAtBothScopes { input, topic } => Option::Some(input),
        OrderingObstacle::EmptyGroupingKey { topic, schema, .. } => Option::Some(schema),
        OrderingObstacle::MemberAssignmentNotExclusive { input, declared: MemberAssignment::RoundRobin } => Option::Some(input),
        OrderingObstacle::MemberAssignmentNotExclusive { input, .. } => Option::Some(input),
        OrderingObstacle::NoGroupingDomain { input, topic } => Option::Some(topic),
        OrderingObstacle::GroupingKeyMappingMissing { input, topic, schema } => Option::Some(topic),
        OrderingObstacle::KeyIdentityUnestablished { input, topic, schema, grouping_key } => Option::Some(schema),
        OrderingObstacle::NoSubscriptionRuntime { input } => Option::Some(input),
        OrderingObstacle::RoutingAbsent { input, pool } => Option::Some(input),
        OrderingObstacle::PoolUndeclared { input, pool } => Option::Some(input),
        OrderingObstacle::MemberConcurrencyNotSerial { pool, declared: MemberConcurrency::Bounded(bound), .. } => Option::Some(pool),
        OrderingObstacle::MemberConcurrencyNotSerial { pool, declared: MemberConcurrency::Unbounded, .. } => Option::Some(pool),
        OrderingObstacle::MemberConcurrencyNotSerial { pool, declared: MemberConcurrency::Unspecified, .. } => Option::Some(pool),
        OrderingObstacle::NoOutboxRuntime { input } => Option::Some(input),
        OrderingObstacle::NoOutboxPrecedence { input, outbox } => Option::Some(outbox),
        OrderingObstacle::NoPartitionDomain { input, outbox } => Option::Some(outbox),
        OrderingObstacle::OutboxPartitionMappingMissing { input, outbox, schema } => Option::Some(outbox),
        OrderingObstacle::EmptyOutboxPartitionKey { outbox, schema, .. } => Option::Some(schema),
        OrderingObstacle::OutboxPartitionKeyNotEquivalent { input, outbox, schema, partition_key } => Option::Some(schema),
        OrderingObstacle::BatchOrderingUnspecified { input, pool } => Option::Some(input),
    }
}

pub open spec fn ordering_evidence_text(obstacle: OrderingObstacle, check: OrderingCheck) -> Seq<char> {
    match obstacle {
        OrderingObstacle::KeyNotFromInput { source } => "The ordering key is sourced from "@ + crate::verification::describe::value_source_text(source) + ", not from an input of the operation, so no routing fact selects which invocations share it."@,
        OrderingObstacle::RequestInputHasNoPrecedenceSource { input } => "Key-bearing invocations arrive through request input `"@ + input@ + "`; the DSL declares no precedence among requests, so there is no logical order to preserve. Request routing and serial member concurrency can establish serialization, but they do not invent an order."@,
        OrderingObstacle::NoTransportPrecedence { input, topic } => "Neither `"@ + topic@ + "` nor `"@ + input@ + "` declares a transport precedence, so there is no order for the execution topology to preserve."@,
        OrderingObstacle::TransportSemanticsAtBothScopes { input, topic } => "`"@ + topic@ + "` declares transport semantics for all its subscriptions and `"@ + input@ + "` declares its own. The two scopes are exclusive, so neither can be read as the effective one."@,
        OrderingObstacle::EmptyGroupingKey { topic, schema, .. } => "The grouping in effect for `"@ + topic@ + "` maps `"@ + schema@ + "` to an empty tuple, which names no group."@,
        OrderingObstacle::MemberAssignmentNotExclusive { input, declared: MemberAssignment::RoundRobin } => "`"@ + input@ + "` declares `round_robin` member assignment, which rotates through members irrespective of routing domain, so the transport's order does not survive into execution: a later delivery may run on another member and overtake an earlier one."@,
        OrderingObstacle::MemberAssignmentNotExclusive { input, .. } => "The member assignment declared for `"@ + input@ + "` does not give a routing domain one active owning member, so a later invocation may execute on a different member and overtake an earlier one."@,
        OrderingObstacle::NoGroupingDomain { input, topic } => "No keyed grouping is in effect for `"@ + input@ + "` on `"@ + topic@ + "`. A transport precedence only reaches execution when same-key deliveries stay in one group, and nothing establishes that here."@,
        OrderingObstacle::GroupingKeyMappingMissing { input, topic, schema } => "The grouping in effect for `"@ + input@ + "` declares no key mapping for `"@ + schema@ + "`, which `"@ + topic@ + "` carries and the subscription admits."@,
        OrderingObstacle::KeyIdentityUnestablished { input, topic, schema, grouping_key } => "For messages of `"@ + schema@ + "` on `"@ + topic@ + "`, the grouping key `"@ + grouping_key.text@ + "` is not established to carry the ordering key of `"@ + input@ + "`, so same-key deliveries may land in different runtime groups."@,
        OrderingObstacle::NoSubscriptionRuntime { input } => "Subscription input `"@ + input@ + "` declares no runtime, so nothing says where its deliveries execute or that the transport's order survives into execution."@,
        OrderingObstacle::RoutingAbsent { input, pool } => "`"@ + input@ + "` dispatches to `"@ + pool@ + "` without a routing declaration: same-key deliveries may be owned by different members and processed out of order."@,
        OrderingObstacle::PoolUndeclared { input, pool } => "`"@ + input@ + "` dispatches to execution pool `"@ + pool@ + "`, which the runtime model does not declare, so its member concurrency is unknown."@,
        OrderingObstacle::MemberConcurrencyNotSerial { pool, declared: MemberConcurrency::Bounded(bound), .. } => "Execution pool `"@ + pool@ + "` admits "@ + crate::text::decimal(bound as nat) + " simultaneous invocations per member: a later invocation may overtake an earlier one."@,
        OrderingObstacle::MemberConcurrencyNotSerial { pool, declared: MemberConcurrency::Unbounded, .. } => "Execution pool `"@ + pool@ + "` declares `unbounded` member concurrency: a later invocation may overtake an earlier one."@,
        OrderingObstacle::MemberConcurrencyNotSerial { pool, declared: MemberConcurrency::Unspecified, .. } => "Execution pool `"@ + pool@ + "` declares no member-concurrency fact; overtaking on one member cannot be excluded."@,
        OrderingObstacle::NoOutboxRuntime { input } => "Outbox input `"@ + input@ + "` declares no runtime, so nothing says what precedence its deliveries carry or that any order survives into execution."@,
        OrderingObstacle::NoOutboxPrecedence { input, outbox } => "The outbox runtime of `"@ + input@ + "` on `"@ + outbox@ + "` declares `ordering: none`, so there is no order for the execution topology to preserve."@,
        OrderingObstacle::NoPartitionDomain { input, outbox } => "The outbox runtime of `"@ + input@ + "` on `"@ + outbox@ + "` declares no keyed partitioning. A precedence only reaches execution when same-key deliveries stay in one partition, and nothing establishes that here."@,
        OrderingObstacle::OutboxPartitionMappingMissing { input, outbox, schema } => "The partitioning in effect for `"@ + input@ + "` declares no partition key for `"@ + schema@ + "`, which the input admits from `"@ + outbox@ + "`."@,
        OrderingObstacle::EmptyOutboxPartitionKey { outbox, schema, .. } => "The partitioning declared for `"@ + outbox@ + "` maps `"@ + schema@ + "` to an empty tuple, which names no partition."@,
        OrderingObstacle::OutboxPartitionKeyNotEquivalent { input, outbox, schema, partition_key } => "For messages of `"@ + schema@ + "` on `"@ + outbox@ + "`, the partition key `"@ + partition_key.text@ + "` is not established to carry the ordering key of `"@ + input@ + "`, so same-key deliveries may land in different partitions."@,
        OrderingObstacle::BatchOrderingUnspecified { input, pool } => "`"@ + input@ + "` dispatches to `"@ + pool@ + "` through a declared batching stage whose ordering preservation is unspecified: no evidence says the established order survives batch processing."@,
    }
}

/// The evidence this obstacle contributes to the diagnostic of `check`.
impl OrderingObstacle {
    pub fn evidence(&self, check: &OrderingCheck) -> (r: Evidence)
        ensures
            r.subject == ordering_evidence_subject(*self, *check),
            r.message@ == ordering_evidence_text(*self, *check),
    {
        match self {
            OrderingObstacle::KeyNotFromInput { source } => {
                let mut text = String::from_str("The ordering key is sourced from ");
                let part1 = crate::verification::describe::describe_value_source(source);
                text.append(part1.as_str());
                text.append(", not from an input of the operation, so no routing fact selects which invocations share it.");
                Evidence { subject: Option::Some(check.operation.clone()), message: text }
            },
            OrderingObstacle::RequestInputHasNoPrecedenceSource { input } => {
                let mut text = String::from_str("Key-bearing invocations arrive through request input `");
                text.append(input.as_str());
                text.append("`; the DSL declares no precedence among requests, so there is no logical order to preserve. Request routing and serial member concurrency can establish serialization, but they do not invent an order.");
                Evidence { subject: Option::Some(input.clone()), message: text }
            },
            OrderingObstacle::NoTransportPrecedence { input, topic } => {
                let mut text = String::from_str("Neither `");
                text.append(topic.as_str());
                text.append("` nor `");
                text.append(input.as_str());
                text.append("` declares a transport precedence, so there is no order for the execution topology to preserve.");
                Evidence { subject: Option::Some(topic.clone()), message: text }
            },
            OrderingObstacle::TransportSemanticsAtBothScopes { input, topic } => {
                let mut text = String::from_str("`");
                text.append(topic.as_str());
                text.append("` declares transport semantics for all its subscriptions and `");
                text.append(input.as_str());
                text.append("` declares its own. The two scopes are exclusive, so neither can be read as the effective one.");
                Evidence { subject: Option::Some(input.clone()), message: text }
            },
            OrderingObstacle::EmptyGroupingKey { topic, schema, .. } => {
                let mut text = String::from_str("The grouping in effect for `");
                text.append(topic.as_str());
                text.append("` maps `");
                text.append(schema.as_str());
                text.append("` to an empty tuple, which names no group.");
                Evidence { subject: Option::Some(schema.clone()), message: text }
            },
            OrderingObstacle::MemberAssignmentNotExclusive { input, declared: MemberAssignment::RoundRobin } => {
                let mut text = String::from_str("`");
                text.append(input.as_str());
                text.append("` declares `round_robin` member assignment, which rotates through members irrespective of routing domain, so the transport's order does not survive into execution: a later delivery may run on another member and overtake an earlier one.");
                Evidence { subject: Option::Some(input.clone()), message: text }
            },
            OrderingObstacle::MemberAssignmentNotExclusive { input, .. } => {
                let mut text = String::from_str("The member assignment declared for `");
                text.append(input.as_str());
                text.append("` does not give a routing domain one active owning member, so a later invocation may execute on a different member and overtake an earlier one.");
                Evidence { subject: Option::Some(input.clone()), message: text }
            },
            OrderingObstacle::NoGroupingDomain { input, topic } => {
                let mut text = String::from_str("No keyed grouping is in effect for `");
                text.append(input.as_str());
                text.append("` on `");
                text.append(topic.as_str());
                text.append("`. A transport precedence only reaches execution when same-key deliveries stay in one group, and nothing establishes that here.");
                Evidence { subject: Option::Some(topic.clone()), message: text }
            },
            OrderingObstacle::GroupingKeyMappingMissing { input, topic, schema } => {
                let mut text = String::from_str("The grouping in effect for `");
                text.append(input.as_str());
                text.append("` declares no key mapping for `");
                text.append(schema.as_str());
                text.append("`, which `");
                text.append(topic.as_str());
                text.append("` carries and the subscription admits.");
                Evidence { subject: Option::Some(topic.clone()), message: text }
            },
            OrderingObstacle::KeyIdentityUnestablished { input, topic, schema, grouping_key } => {
                let mut text = String::from_str("For messages of `");
                text.append(schema.as_str());
                text.append("` on `");
                text.append(topic.as_str());
                text.append("`, the grouping key `");
                text.append(grouping_key.text.as_str());
                text.append("` is not established to carry the ordering key of `");
                text.append(input.as_str());
                text.append("`, so same-key deliveries may land in different runtime groups.");
                Evidence { subject: Option::Some(schema.clone()), message: text }
            },
            OrderingObstacle::NoSubscriptionRuntime { input } => {
                let mut text = String::from_str("Subscription input `");
                text.append(input.as_str());
                text.append("` declares no runtime, so nothing says where its deliveries execute or that the transport's order survives into execution.");
                Evidence { subject: Option::Some(input.clone()), message: text }
            },
            OrderingObstacle::RoutingAbsent { input, pool } => {
                let mut text = String::from_str("`");
                text.append(input.as_str());
                text.append("` dispatches to `");
                text.append(pool.as_str());
                text.append("` without a routing declaration: same-key deliveries may be owned by different members and processed out of order.");
                Evidence { subject: Option::Some(input.clone()), message: text }
            },
            OrderingObstacle::PoolUndeclared { input, pool } => {
                let mut text = String::from_str("`");
                text.append(input.as_str());
                text.append("` dispatches to execution pool `");
                text.append(pool.as_str());
                text.append("`, which the runtime model does not declare, so its member concurrency is unknown.");
                Evidence { subject: Option::Some(input.clone()), message: text }
            },
            OrderingObstacle::MemberConcurrencyNotSerial { pool, declared: MemberConcurrency::Bounded(bound), .. } => {
                let mut text = String::from_str("Execution pool `");
                text.append(pool.as_str());
                text.append("` admits ");
                crate::text::push_decimal(&mut text, *bound);
                text.append(" simultaneous invocations per member: a later invocation may overtake an earlier one.");
                Evidence { subject: Option::Some(pool.clone()), message: text }
            },
            OrderingObstacle::MemberConcurrencyNotSerial { pool, declared: MemberConcurrency::Unbounded, .. } => {
                let mut text = String::from_str("Execution pool `");
                text.append(pool.as_str());
                text.append("` declares `unbounded` member concurrency: a later invocation may overtake an earlier one.");
                Evidence { subject: Option::Some(pool.clone()), message: text }
            },
            OrderingObstacle::MemberConcurrencyNotSerial { pool, declared: MemberConcurrency::Unspecified, .. } => {
                let mut text = String::from_str("Execution pool `");
                text.append(pool.as_str());
                text.append("` declares no member-concurrency fact; overtaking on one member cannot be excluded.");
                Evidence { subject: Option::Some(pool.clone()), message: text }
            },
            OrderingObstacle::NoOutboxRuntime { input } => {
                let mut text = String::from_str("Outbox input `");
                text.append(input.as_str());
                text.append("` declares no runtime, so nothing says what precedence its deliveries carry or that any order survives into execution.");
                Evidence { subject: Option::Some(input.clone()), message: text }
            },
            OrderingObstacle::NoOutboxPrecedence { input, outbox } => {
                let mut text = String::from_str("The outbox runtime of `");
                text.append(input.as_str());
                text.append("` on `");
                text.append(outbox.as_str());
                text.append("` declares `ordering: none`, so there is no order for the execution topology to preserve.");
                Evidence { subject: Option::Some(outbox.clone()), message: text }
            },
            OrderingObstacle::NoPartitionDomain { input, outbox } => {
                let mut text = String::from_str("The outbox runtime of `");
                text.append(input.as_str());
                text.append("` on `");
                text.append(outbox.as_str());
                text.append("` declares no keyed partitioning. A precedence only reaches execution when same-key deliveries stay in one partition, and nothing establishes that here.");
                Evidence { subject: Option::Some(outbox.clone()), message: text }
            },
            OrderingObstacle::OutboxPartitionMappingMissing { input, outbox, schema } => {
                let mut text = String::from_str("The partitioning in effect for `");
                text.append(input.as_str());
                text.append("` declares no partition key for `");
                text.append(schema.as_str());
                text.append("`, which the input admits from `");
                text.append(outbox.as_str());
                text.append("`.");
                Evidence { subject: Option::Some(outbox.clone()), message: text }
            },
            OrderingObstacle::EmptyOutboxPartitionKey { outbox, schema, .. } => {
                let mut text = String::from_str("The partitioning declared for `");
                text.append(outbox.as_str());
                text.append("` maps `");
                text.append(schema.as_str());
                text.append("` to an empty tuple, which names no partition.");
                Evidence { subject: Option::Some(schema.clone()), message: text }
            },
            OrderingObstacle::OutboxPartitionKeyNotEquivalent { input, outbox, schema, partition_key } => {
                let mut text = String::from_str("For messages of `");
                text.append(schema.as_str());
                text.append("` on `");
                text.append(outbox.as_str());
                text.append("`, the partition key `");
                text.append(partition_key.text.as_str());
                text.append("` is not established to carry the ordering key of `");
                text.append(input.as_str());
                text.append("`, so same-key deliveries may land in different partitions.");
                Evidence { subject: Option::Some(schema.clone()), message: text }
            },
            OrderingObstacle::BatchOrderingUnspecified { input, pool } => {
                let mut text = String::from_str("`");
                text.append(input.as_str());
                text.append("` dispatches to `");
                text.append(pool.as_str());
                text.append("` through a declared batching stage whose ordering preservation is unspecified: no evidence says the established order survives batch processing.");
                Evidence { subject: Option::Some(input.clone()), message: text }
            },
        }
    }
}

} // verus!
