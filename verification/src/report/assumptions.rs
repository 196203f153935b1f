//! The assumption lines a proven verdict contributes to its obligation:
//! the declared facts the proof relies on, one per line.

use vstd::prelude::*;

use crate::model::{arm_text, outcome_text, result_arm_text, source_id, Id};
use crate::validation::reference::variant_text;
use crate::verification::describe::{path_label, path_label_text};
use crate::verification::idempotency::{
    ConsumerCollapse, EffectRetrySafety, EffectSafety, IdempotencyProof, PathRetrySafety,
    RetryRoute, TransactionRetrySafety,
};
use crate::verification::paths::{DecisionTaken, PathRef};
use crate::verification::recoverability::{
    ArtifactAvailability, PathResumption, RecoverabilityProof, Resolution, RetryDriver,
    TransactionResolution,
};
use crate::verification::replay::{
    ArtifactReplay, DecisionReplay, DecisionRule, InstanceStability, ResultStabilityRule,
    StabilityRule, StableRoot,
};
use crate::verification::result_replay::{ResultReplayProof, ReturnedResult};

use super::{strings_view, value_ref_label, value_ref_label_text};

verus! {

/// Appends `line`.
fn push_line(lines: &mut Vec<String>, line: String)
    ensures
        strings_view(final(lines)@) == strings_view(old(lines)@).push(line@),
{
    let ghost before = lines@;
    lines.push(line);
    proof {
        assert(strings_view(lines@) =~= strings_view(before).push(line@));
    }
}

/// Appends every line of `more`.
fn push_lines(lines: &mut Vec<String>, more: Vec<String>)
    ensures
        strings_view(final(lines)@) == strings_view(old(lines)@) + strings_view(more@),
{
    let ghost before = lines@;
    let mut more = more;
    let ghost added = more@;
    lines.append(&mut more);
    proof {
        assert(strings_view(lines@) =~= strings_view(before) + strings_view(added));
    }
}

// Paths and roots.

pub open spec fn prefix_text(path_count: nat, path: PathRef) -> Seq<char> {
    if path_count > 1 {
        "on "@ + path_label_text(path.decisions@, path.decisions@.len()) + ": "@
    } else {
        Seq::empty()
    }
}

/// The prefix naming a path when the proof spans more than one.
pub fn path_prefix(path_count: usize, path: &PathRef) -> (r: String)
    ensures
        r@ == prefix_text(path_count as nat, *path),
{
    if path_count > 1 {
        let mut prefix = String::from_str("on ");
        let label = path_label(path);
        prefix.append(label.as_str());
        prefix.append(": ");
        prefix
    } else {
        String::new()
    }
}

/// The labels of the first `count` roots, joined by commas.
pub open spec fn root_list_text(roots: Seq<StableRoot>, count: nat) -> Seq<char>
    decreases count,
{
    if count == 0 || count > roots.len() {
        Seq::empty()
    } else if count == 1 {
        value_ref_label_text(roots[0].root)
    } else {
        root_list_text(roots, (count - 1) as nat) + ", "@ + value_ref_label_text(
            roots[count - 1].root,
        )
    }
}

pub open spec fn root_labels_text(roots: Seq<StableRoot>) -> Seq<char> {
    if roots.len() == 0 {
        "its declared key"@
    } else {
        root_list_text(roots, roots.len())
    }
}

/// The roots a proof cites, or the declared key when it cites none.
pub fn root_labels(roots: &Vec<StableRoot>) -> (r: String)
    ensures
        r@ == root_labels_text(roots@),
{
    if roots.len() == 0 {
        return String::from_str("its declared key");
    }
    let mut text = String::new();
    let mut i: usize = 0;
    while i < roots.len()
        invariant
            i <= roots@.len(),
            text@ == root_list_text(roots@, i as nat),
        decreases roots@.len() - i,
    {
        let label = value_ref_label(&roots[i].root);
        if i > 0 {
            text.append(", ");
        }
        text.append(label.as_str());
        proof {
            assert(text@ =~= root_list_text(roots@, (i + 1) as nat));
        }
        i += 1;
    }
    text
}

pub open spec fn root_rule_text(root: StableRoot) -> Option<Seq<char>> {
    match root.rule {
        StabilityRule::RecoveredArtifact { transaction } => Option::Some(
            source_id(root.root.source)@ + " is recovered from "@ + transaction@
                + "'s keyed commit on every retry"@,
        ),
        StabilityRule::ReconstructedArtifact { transaction } => Option::Some(
            source_id(root.root.source)@
                + " is reconstructed deterministically by naturally replaying "@ + transaction@,
        ),
        StabilityRule::ReplayConsistentResult { result, effect } => Option::Some(
            "result "@ + result@ + " of "@ + effect@
                + " is observed equally by every attempt: the target proves its result replay-consistent"@,
        ),
        StabilityRule::DeduplicatedExternalResult { result, effect, variant } => Option::Some(
            "the "@ + variant_text(variant) + " of result "@ + result@
                + " is observed equally by every attempt: "@ + effect@
                + " declares its terminal result replay-stable over a class-fixed interaction identity"@,
        ),
        _ => Option::None,
    }
}

/// A root whose stability rests on a fact worth stating on its own
/// line: an artifact or an effect result.
pub fn root_rule_label(root: &StableRoot) -> (r: Option<String>)
    ensures
        match r {
            Option::Some(label) => root_rule_text(*root) == Option::Some(label@),
            Option::None => root_rule_text(*root) is None,
        },
{
    match &root.rule {
        StabilityRule::RecoveredArtifact { transaction } => {
            let mut text = String::from_str(root.root.source.id().as_str());
            text.append(" is recovered from ");
            text.append(transaction.as_str());
            text.append("'s keyed commit on every retry");
            Option::Some(text)
        },
        StabilityRule::ReconstructedArtifact { transaction } => {
            let mut text = String::from_str(root.root.source.id().as_str());
            text.append(" is reconstructed deterministically by naturally replaying ");
            text.append(transaction.as_str());
            Option::Some(text)
        },
        StabilityRule::ReplayConsistentResult { result, effect } => {
            let mut text = String::from_str("result ");
            text.append(result.as_str());
            text.append(" of ");
            text.append(effect.as_str());
            text.append(
                " is observed equally by every attempt: the target proves its result replay-consistent",
            );
            Option::Some(text)
        },
        StabilityRule::DeduplicatedExternalResult { result, effect, variant } => {
            let mut text = String::from_str("the ");
            text.append(variant.text());
            text.append(" of result ");
            text.append(result.as_str());
            text.append(" is observed equally by every attempt: ");
            text.append(effect.as_str());
            text.append(
                " declares its terminal result replay-stable over a class-fixed interaction identity",
            );
            Option::Some(text)
        },
        _ => Option::None,
    }
}

pub open spec fn instance_text(instance: InstanceStability) -> Seq<char> {
    match instance {
        InstanceStability::ReplayDeterministic { .. } => "the instance is replay-deterministic"@,
        InstanceStability::EstablishedIntent { intent, replay } => match replay {
            ArtifactReplay::Recovered { transaction, .. } => "intent "@ + intent@
                + " is recovered from "@ + transaction@ + "'s keyed commit"@,
            ArtifactReplay::Reconstructed { transaction, .. } => "intent "@ + intent@
                + " is reconstructed by naturally replaying "@ + transaction@,
            ArtifactReplay::Unavailable { .. } => "intent "@ + intent@,
        },
    }
}

/// Why every attempt constructs the same instance, as a clause.
pub fn instance_label(instance: &InstanceStability) -> (r: String)
    ensures
        r@ == instance_text(*instance),
{
    match instance {
        InstanceStability::ReplayDeterministic { .. } => String::from_str(
            "the instance is replay-deterministic",
        ),
        InstanceStability::EstablishedIntent { intent, replay } => {
            let mut text = String::from_str("intent ");
            text.append(intent.as_str());
            match replay {
                ArtifactReplay::Recovered { transaction, .. } => {
                    text.append(" is recovered from ");
                    text.append(transaction.as_str());
                    text.append("'s keyed commit");
                },
                ArtifactReplay::Reconstructed { transaction, .. } => {
                    text.append(" is reconstructed by naturally replaying ");
                    text.append(transaction.as_str());
                },
                ArtifactReplay::Unavailable { .. } => {},
            }
            proof {
                assert(text@ =~= instance_text(*instance));
            }
            text
        },
    }
}

// Decisions.

pub open spec fn decision_label_text(decision: DecisionTaken) -> Seq<char> {
    match decision {
        DecisionTaken::Match { result, .. } => "the match on "@ + result@,
        DecisionTaken::Branch { location, .. } => "the branch at step "@ + location.label@,
        DecisionTaken::Transaction { transaction, .. } => "the outcome of "@ + transaction@,
    }
}

/// One decision, named for evidence: the site, not the arm.
pub fn decision_label(decision: &DecisionTaken) -> (r: String)
    ensures
        r@ == decision_label_text(*decision),
{
    match decision {
        DecisionTaken::Match { result, .. } => {
            let mut text = String::from_str("the match on ");
            text.append(result.as_str());
            text
        },
        DecisionTaken::Branch { location, .. } => {
            let mut text = String::from_str("the branch at step ");
            text.append(location.label.as_str());
            text
        },
        DecisionTaken::Transaction { transaction, .. } => {
            let mut text = String::from_str("the outcome of ");
            text.append(transaction.as_str());
            text
        },
    }
}

pub open spec fn taken_text(decision: DecisionTaken) -> Seq<char> {
    match decision {
        DecisionTaken::Match { result, arm, .. } => "the match on "@ + result@ + " takes its "@
            + result_arm_text(arm) + " arm on every attempt"@,
        DecisionTaken::Branch { location, arm } => "the branch at step "@ + location.label@
            + " takes its "@ + arm_text(arm) + " arm on every attempt"@,
        DecisionTaken::Transaction { transaction, outcome, .. } => transaction@ + " is "@
            + outcome_text(outcome) + " on every attempt"@,
    }
}

pub open spec fn because_text(rule: DecisionRule) -> Seq<char> {
    match rule {
        DecisionRule::StableResult { effect, rule, .. } => match rule {
            ResultStabilityRule::ReplayConsistentTarget { operation, input, .. } => effect@
                + " sends a class-fixed request into "@ + operation@ + " via "@ + input@
                + ", whose result replay is proven"@,
            ResultStabilityRule::ExternalTerminalResult { variant, .. } => effect@
                + " declares its terminal result replay-stable over a class-fixed interaction identity, and the observed "@
                + variant_text(variant) + " is terminal"@,
        },
        DecisionRule::StableCondition { roots } => "the condition is deterministic over "@
            + root_labels_text(roots@),
        DecisionRule::ResolvedCommit { transaction, key } => transaction@
            + " commits are deduplicated by "@ + root_labels_text(key@)
            + ", so every attempt resolves the one commit"@,
        _ => Seq::empty(),
    }
}

/// Whether a decision's rule is a derived structural admission, which
/// is evidence rather than an assumption.
pub open spec fn is_admission(rule: DecisionRule) -> bool {
    rule is IdempotencyInertContinuation || rule is OutcomeDivergenceAddsNoWork
}

/// The lines fixing the first `count` decisions, admissions left out.
pub open spec fn decision_lines(prefix: Seq<char>, decisions: Seq<DecisionReplay>, count: nat) -> Seq<
    Seq<char>,
>
    decreases count,
{
    if count == 0 || count > decisions.len() {
        Seq::empty()
    } else {
        let earlier = decision_lines(prefix, decisions, (count - 1) as nat);
        let decision = decisions[count - 1];
        if is_admission(decision.rule) {
            earlier
        } else {
            earlier.push(prefix + taken_text(decision.decision) + ": "@ + because_text(decision.rule))
        }
    }
}

/// The facts fixing each decision of a path: one line per decision.
pub fn decision_assumptions(prefix: &str, decisions: &Vec<DecisionReplay>) -> (r: Vec<String>)
    ensures
        strings_view(r@) == decision_lines(prefix@, decisions@, decisions@.len()),
{
    let mut lines: Vec<String> = Vec::new();
    let mut i: usize = 0;
    while i < decisions.len()
        invariant
            i <= decisions@.len(),
            strings_view(lines@) == decision_lines(prefix@, decisions@, i as nat),
        decreases decisions@.len() - i,
    {
        let decision = &decisions[i];
        let admitted = match &decision.rule {
            DecisionRule::IdempotencyInertContinuation
            | DecisionRule::OutcomeDivergenceAddsNoWork { .. } => true,
            _ => false,
        };
        if !admitted {
            let mut line = String::from_str(prefix);
            match &decision.decision {
                DecisionTaken::Match { result, arm, .. } => {
                    line.append("the match on ");
                    line.append(result.as_str());
                    line.append(" takes its ");
                    let name = crate::verification::describe::result_arm_name(arm);
                    line.append(name.as_str());
                    line.append(" arm on every attempt");
                },
                DecisionTaken::Branch { location, arm } => {
                    line.append("the branch at step ");
                    line.append(location.label.as_str());
                    line.append(" takes its ");
                    let name = crate::verification::describe::arm_name(arm);
                    line.append(name.as_str());
                    line.append(" arm on every attempt");
                },
                DecisionTaken::Transaction { transaction, outcome, .. } => {
                    line.append(transaction.as_str());
                    line.append(" is ");
                    line.append(outcome.text());
                    line.append(" on every attempt");
                },
            }
            line.append(": ");
            match &decision.rule {
                DecisionRule::StableResult { effect, rule, .. } => {
                    line.append(effect.as_str());
                    match rule {
                        ResultStabilityRule::ReplayConsistentTarget { operation, input, .. } => {
                            line.append(" sends a class-fixed request into ");
                            line.append(operation.as_str());
                            line.append(" via ");
                            line.append(input.as_str());
                            line.append(", whose result replay is proven");
                        },
                        ResultStabilityRule::ExternalTerminalResult { variant, .. } => {
                            line.append(
                                " declares its terminal result replay-stable over a class-fixed interaction identity, and the observed ",
                            );
                            line.append(variant.text());
                            line.append(" is terminal");
                        },
                    }
                },
                DecisionRule::StableCondition { roots } => {
                    line.append("the condition is deterministic over ");
                    let labels = root_labels(roots);
                    line.append(labels.as_str());
                },
                DecisionRule::ResolvedCommit { transaction, key } => {
                    line.append(transaction.as_str());
                    line.append(" commits are deduplicated by ");
                    let labels = root_labels(key);
                    line.append(labels.as_str());
                    line.append(", so every attempt resolves the one commit");
                },
                _ => {},
            }
            proof {
                assert(line@ =~= prefix@ + taken_text(decision.decision) + ": "@ + because_text(
                    decision.rule,
                ));
            }
            push_line(&mut lines, line);
        }
        i += 1;
    }
    lines
}

// Idempotency.

pub open spec fn keyed_class_text(input: Id) -> Seq<char> {
    input@ + " admits no message schemas; no attempt can bear the key"@
}

pub open spec fn transaction_route_line(prefix: Seq<char>, transaction: TransactionRetrySafety) -> Seq<
    char,
> {
    match transaction.route {
        RetryRoute::KeyedCommit { key } => prefix + transaction.transaction@
            + " commits are deduplicated by "@ + root_labels_text(key@)
            + ", stable across the attempt class"@,
        RetryRoute::NaturalReplay => prefix + transaction.transaction@
            + " is naturally replayable: re-execution reproduces the same logical state"@,
    }
}

pub open spec fn transaction_route_lines(
    prefix: Seq<char>,
    transactions: Seq<TransactionRetrySafety>,
    count: nat,
) -> Seq<Seq<char>>
    decreases count,
{
    if count == 0 || count > transactions.len() {
        Seq::empty()
    } else {
        transaction_route_lines(prefix, transactions, (count - 1) as nat).push(
            transaction_route_line(prefix, transactions[count - 1]),
        )
    }
}

pub open spec fn consumer_line(prefix: Seq<char>, schema: Id, consumer: ConsumerCollapse) -> Seq<
    char,
> {
    match consumer {
        ConsumerCollapse::ProvenRequirement { operation, input } => prefix
            + "duplicate deliveries of "@ + schema@ + " to "@ + operation@ + " via "@ + input@
            + " fall into one proven idempotency class"@,
        ConsumerCollapse::SingleDelivery { operation, input } => prefix + operation@ + " via "@
            + input@ + " receives "@ + schema@
            + " at most once: one logical message under at-most-once delivery"@,
    }
}

pub open spec fn consumer_lines(
    prefix: Seq<char>,
    schema: Id,
    consumers: Seq<ConsumerCollapse>,
    count: nat,
) -> Seq<Seq<char>>
    decreases count,
{
    if count == 0 || count > consumers.len() {
        Seq::empty()
    } else {
        consumer_lines(prefix, schema, consumers, (count - 1) as nat).push(
            consumer_line(prefix, schema, consumers[count - 1]),
        )
    }
}

/// The lines one effect's safety contributes.
pub open spec fn effect_lines(prefix: Seq<char>, effect: EffectRetrySafety) -> Seq<Seq<char>> {
    let name = effect.effect@;
    match effect.safety {
        EffectSafety::ExternallyIdempotent { identity_key } => seq![
            prefix + "duplicate applications of "@ + name + " within one interaction identity ("@
                + root_labels_text(identity_key@)
                + ") are declared externally indistinguishable from a single application"@,
        ],
        EffectSafety::ExternallySideEffectFree => seq![
            prefix + "the external boundary of "@ + name
                + " is declared side-effect-free: any application causes no modeled externally observable state change"@,
        ],
        EffectSafety::SameLogicalMessage { topic, schema, instance, consumers } => seq![
            prefix + "duplicate executions of "@ + name + " publish the same logical message under "@
                + topic@ + "'s message identity ("@ + instance_text(instance) + ")"@,
        ] + (if consumers@.len() == 0 {
            seq![
                prefix + "no modeled subscription on "@ + topic@ + " admits "@ + schema@
                    + "; the cascade ends at the topic"@,
            ]
        } else {
            Seq::empty()
        }) + consumer_lines(prefix, schema, consumers@, consumers@.len()),
        EffectSafety::DeduplicatedByTarget { operation, input, instance } => seq![
            prefix + "duplicate requests of "@ + name + " fall into one proven idempotency class of "@
                + operation@ + " via "@ + input@ + " ("@ + instance_text(instance) + ")"@,
        ],
        EffectSafety::TransactionDeduplicated { transaction, key } => seq![
            prefix + name + " commits atomically with "@ + transaction@
                + ", whose commits are deduplicated by "@ + root_labels_text(key@)
                + ", stable across the attempt class: at most one committed occurrence of the outbox write exists"@,
        ],
        EffectSafety::SameLogicalOutboxMessage { outbox, schema, instance, consumers } => seq![
            prefix + "duplicate committed executions of "@ + name
                + " admit the same logical message under "@ + outbox@ + "'s message identity ("@
                + instance_text(instance) + ")"@,
        ] + (if consumers@.len() == 0 {
            seq![
                prefix + "no modeled outbox input on "@ + outbox@ + " admits "@ + schema@
                    + "; the cascade ends at the outbox"@,
            ]
        } else {
            Seq::empty()
        }) + consumer_lines(prefix, schema, consumers@, consumers@.len()),
    }
}

pub open spec fn effects_lines(prefix: Seq<char>, effects: Seq<EffectRetrySafety>, count: nat) -> Seq<
    Seq<char>,
>
    decreases count,
{
    if count == 0 || count > effects.len() {
        Seq::empty()
    } else {
        effects_lines(prefix, effects, (count - 1) as nat) + effect_lines(prefix, effects[count - 1])
    }
}

/// The lines of one retry-safe path of a proof over `path_count` paths.
pub open spec fn retry_path_lines(path_count: nat, path: PathRetrySafety) -> Seq<Seq<char>> {
    let prefix = prefix_text(path_count, path.path);
    decision_lines(prefix, path.decisions@, path.decisions@.len()) + transaction_route_lines(
        prefix,
        path.transactions@,
        path.transactions@.len(),
    ) + effects_lines(prefix, path.effects@, path.effects@.len())
}

pub open spec fn retry_paths_lines(paths: Seq<PathRetrySafety>, count: nat) -> Seq<Seq<char>>
    decreases count,
{
    if count == 0 || count > paths.len() {
        Seq::empty()
    } else {
        retry_paths_lines(paths, (count - 1) as nat) + retry_path_lines(
            paths.len(),
            paths[count - 1],
        )
    }
}

pub open spec fn idempotency_lines(argument: IdempotencyProof) -> Seq<Seq<char>> {
    match argument {
        IdempotencyProof::NoAdmittedInvocations { input } => seq![keyed_class_text(input)],
        IdempotencyProof::NoAdmittedPaths { input } => seq![
            "no path of the program is admitted for "@ + input@
                + "; an attempt performs no modeled work"@,
        ],
        IdempotencyProof::SingleDelivery { input, topic } => seq![
            input@ + " receives at-most-once delivery from "@ + topic@
                + ", whose message identity is pinned by the key: a class holds at most one attempt"@,
        ],
        IdempotencyProof::SingleOutboxDelivery { input, outbox } => seq![
            input@ + " receives at-most-once delivery from outbox "@ + outbox@
                + ", whose message identity is pinned by the key: a class holds at most one attempt"@,
        ],
        IdempotencyProof::RetrySafePaths { paths } => retry_paths_lines(paths@, paths@.len()),
    }
}

fn push_consumer_lines(
    lines: &mut Vec<String>,
    prefix: &String,
    schema: &Id,
    consumers: &Vec<ConsumerCollapse>,
)
    ensures
        strings_view(final(lines)@) == strings_view(old(lines)@) + consumer_lines(
            prefix@,
            *schema,
            consumers@,
            consumers@.len(),
        ),
{
    let ghost start = strings_view(lines@);
    let mut i: usize = 0;
    while i < consumers.len()
        invariant
            i <= consumers@.len(),
            strings_view(lines@) == start + consumer_lines(prefix@, *schema, consumers@, i as nat),
        decreases consumers@.len() - i,
    {
        let mut line = String::from_str(prefix.as_str());
        match &consumers[i] {
            ConsumerCollapse::ProvenRequirement { operation, input } => {
                line.append("duplicate deliveries of ");
                line.append(schema.as_str());
                line.append(" to ");
                line.append(operation.as_str());
                line.append(" via ");
                line.append(input.as_str());
                line.append(" fall into one proven idempotency class");
            },
            ConsumerCollapse::SingleDelivery { operation, input } => {
                line.append(operation.as_str());
                line.append(" via ");
                line.append(input.as_str());
                line.append(" receives ");
                line.append(schema.as_str());
                line.append(" at most once: one logical message under at-most-once delivery");
            },
        }
        proof {
            assert(line@ =~= consumer_line(prefix@, *schema, consumers@[i as int]));
        }
        push_line(lines, line);
        i += 1;
    }
}

fn push_effect_lines(lines: &mut Vec<String>, prefix: &String, effect: &EffectRetrySafety)
    ensures
        strings_view(final(lines)@) == strings_view(old(lines)@) + effect_lines(prefix@, *effect),
{
    let ghost start = strings_view(lines@);
    let name = &effect.effect;
    match &effect.safety {
        EffectSafety::ExternallyIdempotent { identity_key } => {
            let mut line = String::from_str(prefix.as_str());
            line.append("duplicate applications of ");
            line.append(name.as_str());
            line.append(" within one interaction identity (");
            let labels = root_labels(identity_key);
            line.append(labels.as_str());
            line.append(") are declared externally indistinguishable from a single application");
            push_line(lines, line);
        },
        EffectSafety::ExternallySideEffectFree => {
            let mut line = String::from_str(prefix.as_str());
            line.append("the external boundary of ");
            line.append(name.as_str());
            line.append(
                " is declared side-effect-free: any application causes no modeled externally observable state change",
            );
            push_line(lines, line);
        },
        EffectSafety::SameLogicalMessage { topic, schema, instance, consumers } => {
            let mut line = String::from_str(prefix.as_str());
            line.append("duplicate executions of ");
            line.append(name.as_str());
            line.append(" publish the same logical message under ");
            line.append(topic.as_str());
            line.append("'s message identity (");
            let label = instance_label(instance);
            line.append(label.as_str());
            line.append(")");
            push_line(lines, line);
            if consumers.len() == 0 {
                let mut line = String::from_str(prefix.as_str());
                line.append("no modeled subscription on ");
                line.append(topic.as_str());
                line.append(" admits ");
                line.append(schema.as_str());
                line.append("; the cascade ends at the topic");
                push_line(lines, line);
            }
            push_consumer_lines(lines, prefix, schema, consumers);
        },
        EffectSafety::DeduplicatedByTarget { operation, input, instance } => {
            let mut line = String::from_str(prefix.as_str());
            line.append("duplicate requests of ");
            line.append(name.as_str());
            line.append(" fall into one proven idempotency class of ");
            line.append(operation.as_str());
            line.append(" via ");
            line.append(input.as_str());
            line.append(" (");
            let label = instance_label(instance);
            line.append(label.as_str());
            line.append(")");
            push_line(lines, line);
        },
        EffectSafety::TransactionDeduplicated { transaction, key } => {
            let mut line = String::from_str(prefix.as_str());
            line.append(name.as_str());
            line.append(" commits atomically with ");
            line.append(transaction.as_str());
            line.append(", whose commits are deduplicated by ");
            let labels = root_labels(key);
            line.append(labels.as_str());
            line.append(
                ", stable across the attempt class: at most one committed occurrence of the outbox write exists",
            );
            push_line(lines, line);
        },
        EffectSafety::SameLogicalOutboxMessage { outbox, schema, instance, consumers } => {
            let mut line = String::from_str(prefix.as_str());
            line.append("duplicate committed executions of ");
            line.append(name.as_str());
            line.append(" admit the same logical message under ");
            line.append(outbox.as_str());
            line.append("'s message identity (");
            let label = instance_label(instance);
            line.append(label.as_str());
            line.append(")");
            push_line(lines, line);
            if consumers.len() == 0 {
                let mut line = String::from_str(prefix.as_str());
                line.append("no modeled outbox input on ");
                line.append(outbox.as_str());
                line.append(" admits ");
                line.append(schema.as_str());
                line.append("; the cascade ends at the outbox");
                push_line(lines, line);
            }
            push_consumer_lines(lines, prefix, schema, consumers);
        },
    }
    proof {
        assert(strings_view(lines@) =~= start + effect_lines(prefix@, *effect));
    }
}

fn push_retry_path_lines(lines: &mut Vec<String>, path_count: usize, path: &PathRetrySafety)
    ensures
        strings_view(final(lines)@) == strings_view(old(lines)@) + retry_path_lines(
            path_count as nat,
            *path,
        ),
{
    let ghost start = strings_view(lines@);
    let prefix = path_prefix(path_count, &path.path);
    let decisions = decision_assumptions(prefix.as_str(), &path.decisions);
    push_lines(lines, decisions);
    let ghost after_decisions = strings_view(lines@);
    let mut i: usize = 0;
    while i < path.transactions.len()
        invariant
            i <= path.transactions@.len(),
            strings_view(lines@) == after_decisions + transaction_route_lines(
                prefix@,
                path.transactions@,
                i as nat,
            ),
        decreases path.transactions@.len() - i,
    {
        let transaction = &path.transactions[i];
        let mut line = String::from_str(prefix.as_str());
        line.append(transaction.transaction.as_str());
        match &transaction.route {
            RetryRoute::KeyedCommit { key } => {
                line.append(" commits are deduplicated by ");
                let labels = root_labels(key);
                line.append(labels.as_str());
                line.append(", stable across the attempt class");
            },
            RetryRoute::NaturalReplay => {
                line.append(
                    " is naturally replayable: re-execution reproduces the same logical state",
                );
            },
        }
        proof {
            assert(line@ =~= transaction_route_line(prefix@, *transaction));
        }
        push_line(lines, line);
        i += 1;
    }
    let ghost after_transactions = strings_view(lines@);
    let mut i: usize = 0;
    while i < path.effects.len()
        invariant
            i <= path.effects@.len(),
            strings_view(lines@) == after_transactions + effects_lines(
                prefix@,
                path.effects@,
                i as nat,
            ),
        decreases path.effects@.len() - i,
    {
        push_effect_lines(lines, &prefix, &path.effects[i]);
        proof {
            assert(strings_view(lines@) =~= after_transactions + effects_lines(
                prefix@,
                path.effects@,
                (i + 1) as nat,
            ));
        }
        i += 1;
    }
    proof {
        assert(strings_view(lines@) =~= start + retry_path_lines(path_count as nat, *path));
    }
}

/// The declared facts an idempotency proof relies on.
pub fn idempotency_assumptions(argument: &IdempotencyProof) -> (r: Vec<String>)
    ensures
        strings_view(r@) == idempotency_lines(*argument),
{
    let mut lines: Vec<String> = Vec::new();
    match argument {
        IdempotencyProof::NoAdmittedInvocations { input } => {
            let mut line = String::from_str(input.as_str());
            line.append(" admits no message schemas; no attempt can bear the key");
            push_line(&mut lines, line);
        },
        IdempotencyProof::NoAdmittedPaths { input } => {
            let mut line = String::from_str("no path of the program is admitted for ");
            line.append(input.as_str());
            line.append("; an attempt performs no modeled work");
            push_line(&mut lines, line);
        },
        IdempotencyProof::SingleDelivery { input, topic } => {
            let mut line = String::from_str(input.as_str());
            line.append(" receives at-most-once delivery from ");
            line.append(topic.as_str());
            line.append(
                ", whose message identity is pinned by the key: a class holds at most one attempt",
            );
            push_line(&mut lines, line);
        },
        IdempotencyProof::SingleOutboxDelivery { input, outbox } => {
            let mut line = String::from_str(input.as_str());
            line.append(" receives at-most-once delivery from outbox ");
            line.append(outbox.as_str());
            line.append(
                ", whose message identity is pinned by the key: a class holds at most one attempt",
            );
            push_line(&mut lines, line);
        },
        IdempotencyProof::RetrySafePaths { paths } => {
            let mut i: usize = 0;
            while i < paths.len()
                invariant
                    i <= paths@.len(),
                    strings_view(lines@) == retry_paths_lines(paths@, i as nat),
                decreases paths@.len() - i,
            {
                push_retry_path_lines(&mut lines, paths.len(), &paths[i]);
                i += 1;
            }
        },
    }
    proof {
        assert(strings_view(lines@) =~= idempotency_lines(*argument));
    }
    lines
}

// Result replay.

/// The distinct rule labels among the first `count` roots, in order of
/// first citation.
pub open spec fn cited_labels(roots: Seq<StableRoot>, count: nat) -> Seq<Seq<char>>
    decreases count,
{
    if count == 0 || count > roots.len() {
        Seq::empty()
    } else {
        let earlier = cited_labels(roots, (count - 1) as nat);
        match root_rule_text(roots[count - 1]) {
            Option::Some(label) => if earlier.contains(label) {
                earlier
            } else {
                earlier.push(label)
            },
            Option::None => earlier,
        }
    }
}

pub open spec fn prefixed(prefix: Seq<char>, labels: Seq<Seq<char>>) -> Seq<Seq<char>> {
    labels.map_values(|label: Seq<char>| prefix + label)
}

pub open spec fn returned_lines(path_count: nat, returned: ReturnedResult) -> Seq<Seq<char>> {
    let prefix = prefix_text(path_count, returned.path);
    decision_lines(prefix, returned.decisions@, returned.decisions@.len()).push(
        prefix + "the returned "@ + variant_text(returned.variant)
            + " payload is derived deterministically from "@ + root_labels_text(
            returned.derivation@,
        ),
    ) + prefixed(prefix, cited_labels(returned.derivation@, returned.derivation@.len()))
}

pub open spec fn results_lines(results: Seq<ReturnedResult>, count: nat) -> Seq<Seq<char>>
    decreases count,
{
    if count == 0 || count > results.len() {
        Seq::empty()
    } else {
        results_lines(results, (count - 1) as nat) + returned_lines(
            results.len(),
            results[count - 1],
        )
    }
}

pub open spec fn result_replay_lines(argument: ResultReplayProof) -> Seq<Seq<char>> {
    match argument {
        ResultReplayProof::NoAdmittedInvocations { input } => seq![keyed_class_text(input)],
        ResultReplayProof::NoReturnedResult { input } => seq![
            "no admitted path returns a result for "@ + input@ + "; there is nothing to stabilize"@,
        ],
        ResultReplayProof::ClassFixedResult { results } => results_lines(results@, results@.len()),
    }
}

/// Whether `labels` holds the text of `label`.
fn holds_text(labels: &Vec<String>, label: &String) -> (r: bool)
    ensures
        r == strings_view(labels@).contains(label@),
{
    let mut i: usize = 0;
    while i < labels.len()
        invariant
            i <= labels@.len(),
            forall|k: int| 0 <= k < i ==> labels@[k]@ != label@,
        decreases labels@.len() - i,
    {
        if labels[i] == *label {
            proof {
                assert(strings_view(labels@)[i as int] == label@);
            }
            return true;
        }
        i += 1;
    }
    proof {
        if strings_view(labels@).contains(label@) {
            let k = choose|k: int| 0 <= k < strings_view(labels@).len() && strings_view(labels@)[k]
                == label@;
            assert(labels@[k]@ == label@);
        }
    }
    false
}

fn push_returned_lines(lines: &mut Vec<String>, path_count: usize, returned: &ReturnedResult)
    ensures
        strings_view(final(lines)@) == strings_view(old(lines)@) + returned_lines(
            path_count as nat,
            *returned,
        ),
{
    let ghost start = strings_view(lines@);
    let prefix = path_prefix(path_count, &returned.path);
    let decisions = decision_assumptions(prefix.as_str(), &returned.decisions);
    push_lines(lines, decisions);
    let mut line = String::from_str(prefix.as_str());
    line.append("the returned ");
    line.append(returned.variant.text());
    line.append(" payload is derived deterministically from ");
    let labels = root_labels(&returned.derivation);
    line.append(labels.as_str());
    push_line(lines, line);
    let ghost after_payload = strings_view(lines@);
    let mut cited: Vec<String> = Vec::new();
    let mut i: usize = 0;
    while i < returned.derivation.len()
        invariant
            i <= returned.derivation@.len(),
            strings_view(cited@) == cited_labels(returned.derivation@, i as nat),
            strings_view(lines@) == after_payload + prefixed(
                prefix@,
                cited_labels(returned.derivation@, i as nat),
            ),
        decreases returned.derivation@.len() - i,
    {
        match root_rule_label(&returned.derivation[i]) {
            Option::Some(label) => {
                if !holds_text(&cited, &label) {
                    let mut line = String::from_str(prefix.as_str());
                    line.append(label.as_str());
                    push_line(lines, line);
                    push_line(&mut cited, label);
                }
            },
            Option::None => {},
        }
        proof {
            assert(prefixed(prefix@, cited_labels(returned.derivation@, (i + 1) as nat))
                =~= if cited_labels(returned.derivation@, (i + 1) as nat).len() == cited_labels(
                returned.derivation@,
                i as nat,
            ).len() {
                prefixed(prefix@, cited_labels(returned.derivation@, i as nat))
            } else {
                prefixed(prefix@, cited_labels(returned.derivation@, i as nat)).push(
                    prefix@ + cited_labels(returned.derivation@, (i + 1) as nat).last(),
                )
            });
            assert(strings_view(lines@) =~= after_payload + prefixed(
                prefix@,
                cited_labels(returned.derivation@, (i + 1) as nat),
            ));
        }
        i += 1;
    }
    proof {
        assert(strings_view(lines@) =~= start + returned_lines(path_count as nat, *returned));
    }
}

/// The declared facts a result-replay proof relies on.
pub fn result_replay_assumptions(argument: &ResultReplayProof) -> (r: Vec<String>)
    ensures
        strings_view(r@) == result_replay_lines(*argument),
{
    let mut lines: Vec<String> = Vec::new();
    match argument {
        ResultReplayProof::NoAdmittedInvocations { input } => {
            let mut line = String::from_str(input.as_str());
            line.append(" admits no message schemas; no attempt can bear the key");
            push_line(&mut lines, line);
        },
        ResultReplayProof::NoReturnedResult { input } => {
            let mut line = String::from_str("no admitted path returns a result for ");
            line.append(input.as_str());
            line.append("; there is nothing to stabilize");
            push_line(&mut lines, line);
        },
        ResultReplayProof::ClassFixedResult { results } => {
            let mut i: usize = 0;
            while i < results.len()
                invariant
                    i <= results@.len(),
                    strings_view(lines@) == results_lines(results@, i as nat),
                decreases results@.len() - i,
            {
                push_returned_lines(&mut lines, results.len(), &results[i]);
                i += 1;
            }
        },
    }
    proof {
        assert(strings_view(lines@) =~= result_replay_lines(*argument));
    }
    lines
}

// Recoverability.

pub open spec fn resolution_line(prefix: Seq<char>, transaction: TransactionResolution) -> Seq<char> {
    match transaction.resolution {
        Resolution::KeyedCommit { key } => prefix + transaction.transaction@
            + " resolves on re-encounter through its keyed commit ("@ + root_labels_text(key@)
            + ")"@,
        Resolution::NaturalReplay => prefix + transaction.transaction@
            + " re-executes safely by natural replay"@,
        Resolution::TerminalStep => prefix + transaction.transaction@
            + " is the path's final step before completion; no failing prefix follows its commit"@,
    }
}

pub open spec fn artifact_line(prefix: Seq<char>, artifact: ArtifactAvailability) -> Seq<char> {
    match artifact.replay {
        ArtifactReplay::Recovered { transaction, .. } => prefix + "artifact "@ + artifact.artifact@
            + " is recovered from "@ + transaction@ + "'s keyed commit on resumption"@,
        ArtifactReplay::Reconstructed { transaction, .. } => prefix + "artifact "@
            + artifact.artifact@ + " is reconstructed by naturally replaying "@ + transaction@,
        ArtifactReplay::Unavailable { transaction, .. } => prefix + "artifact "@
            + artifact.artifact@ + " is supplied by "@ + transaction@,
    }
}

pub open spec fn resumption_lines(path_count: nat, path: PathResumption) -> Seq<Seq<char>> {
    let prefix = prefix_text(path_count, path.path);
    path.transactions@.map_values(
        |transaction: TransactionResolution| resolution_line(prefix, transaction),
    ) + path.artifacts@.map_values(|artifact: ArtifactAvailability| artifact_line(prefix, artifact))
}

pub open spec fn resumptions_lines(paths: Seq<PathResumption>, count: nat) -> Seq<Seq<char>>
    decreases count,
{
    if count == 0 || count > paths.len() {
        Seq::empty()
    } else {
        resumptions_lines(paths, (count - 1) as nat) + resumption_lines(
            paths.len(),
            paths[count - 1],
        )
    }
}

/// The same-path continuation facts of every resumable path.
pub fn resumption_assumptions(paths: &Vec<PathResumption>) -> (r: Vec<String>)
    ensures
        strings_view(r@) == resumptions_lines(paths@, paths@.len()),
{
    let mut lines: Vec<String> = Vec::new();
    let mut p: usize = 0;
    while p < paths.len()
        invariant
            p <= paths@.len(),
            strings_view(lines@) == resumptions_lines(paths@, p as nat),
        decreases paths@.len() - p,
    {
        let path = &paths[p];
        let ghost start = strings_view(lines@);
        let prefix = path_prefix(paths.len(), &path.path);
        let mut i: usize = 0;
        while i < path.transactions.len()
            invariant
                i <= path.transactions@.len(),
                strings_view(lines@) == start + path.transactions@.take(i as int).map_values(
                    |transaction: TransactionResolution| resolution_line(prefix@, transaction),
                ),
            decreases path.transactions@.len() - i,
        {
            let transaction = &path.transactions[i];
            let mut line = String::from_str(prefix.as_str());
            line.append(transaction.transaction.as_str());
            match &transaction.resolution {
                Resolution::KeyedCommit { key } => {
                    line.append(" resolves on re-encounter through its keyed commit (");
                    let labels = root_labels(key);
                    line.append(labels.as_str());
                    line.append(")");
                },
                Resolution::NaturalReplay => {
                    line.append(" re-executes safely by natural replay");
                },
                Resolution::TerminalStep => {
                    line.append(
                        " is the path's final step before completion; no failing prefix follows its commit",
                    );
                },
            }
            proof {
                assert(line@ =~= resolution_line(prefix@, *transaction));
            }
            push_line(&mut lines, line);
            proof {
                assert(path.transactions@.take(i + 1).map_values(
                    |transaction: TransactionResolution| resolution_line(prefix@, transaction),
                ) =~= path.transactions@.take(i as int).map_values(
                    |transaction: TransactionResolution| resolution_line(prefix@, transaction),
                ).push(resolution_line(prefix@, *transaction)));
            }
            i += 1;
        }
        proof {
            assert(path.transactions@.take(path.transactions@.len() as int) =~= path.transactions@);
        }
        let ghost middle = strings_view(lines@);
        let mut i: usize = 0;
        while i < path.artifacts.len()
            invariant
                i <= path.artifacts@.len(),
                strings_view(lines@) == middle + path.artifacts@.take(i as int).map_values(
                    |artifact: ArtifactAvailability| artifact_line(prefix@, artifact),
                ),
            decreases path.artifacts@.len() - i,
        {
            let artifact = &path.artifacts[i];
            let mut line = String::from_str(prefix.as_str());
            line.append("artifact ");
            line.append(artifact.artifact.as_str());
            match &artifact.replay {
                ArtifactReplay::Recovered { transaction, .. } => {
                    line.append(" is recovered from ");
                    line.append(transaction.as_str());
                    line.append("'s keyed commit on resumption");
                },
                ArtifactReplay::Reconstructed { transaction, .. } => {
                    line.append(" is reconstructed by naturally replaying ");
                    line.append(transaction.as_str());
                },
                ArtifactReplay::Unavailable { transaction, .. } => {
                    line.append(" is supplied by ");
                    line.append(transaction.as_str());
                },
            }
            proof {
                assert(line@ =~= artifact_line(prefix@, *artifact));
            }
            push_line(&mut lines, line);
            proof {
                assert(path.artifacts@.take(i + 1).map_values(
                    |artifact: ArtifactAvailability| artifact_line(prefix@, artifact),
                ) =~= path.artifacts@.take(i as int).map_values(
                    |artifact: ArtifactAvailability| artifact_line(prefix@, artifact),
                ).push(artifact_line(prefix@, *artifact)));
            }
            i += 1;
        }
        proof {
            assert(path.artifacts@.take(path.artifacts@.len() as int) =~= path.artifacts@);
            assert(strings_view(lines@) =~= resumptions_lines(paths@, (p + 1) as nat));
        }
        p += 1;
    }
    lines
}

pub open spec fn driver_line(driver: RetryDriver) -> Seq<char> {
    match driver {
        RetryDriver::AtLeastOnceDelivery { input, topic } => input@ + " redelivers via "@ + topic@
            + " at least once, re-driving interrupted invocations"@,
        RetryDriver::InboundRepeatableRequest { operation, effect } => operation@
            + " may repeat its request through "@ + effect@
            + ", re-driving interrupted invocations"@,
        RetryDriver::InboundRepeatableTransitionEffect { machine, transition, effect } => "transition "@
            + transition@ + " of "@ + machine@ + " may repeat its request through "@ + effect@
            + ", re-driving interrupted invocations"@,
    }
}

pub open spec fn recoverability_lines(argument: RecoverabilityProof) -> Seq<Seq<char>> {
    match argument {
        RecoverabilityProof::NoAdmittedInvocations { input } => seq![keyed_class_text(input)],
        RecoverabilityProof::Resumable { paths } => resumptions_lines(paths@, paths@.len()),
        RecoverabilityProof::Guaranteed { driver, paths } => seq![driver_line(driver)]
            + resumptions_lines(paths@, paths@.len()),
    }
}

/// The declared facts a recoverability proof relies on.
pub fn recoverability_assumptions(argument: &RecoverabilityProof) -> (r: Vec<String>)
    ensures
        strings_view(r@) == recoverability_lines(*argument),
{
    match argument {
        RecoverabilityProof::NoAdmittedInvocations { input } => {
            let mut lines: Vec<String> = Vec::new();
            let mut line = String::from_str(input.as_str());
            line.append(" admits no message schemas; no attempt can bear the key");
            push_line(&mut lines, line);
            proof {
                assert(strings_view(lines@) =~= recoverability_lines(*argument));
            }
            lines
        },
        RecoverabilityProof::Resumable { paths } => resumption_assumptions(paths),
        RecoverabilityProof::Guaranteed { driver, paths } => {
            let mut lines: Vec<String> = Vec::new();
            let line = match driver {
                RetryDriver::AtLeastOnceDelivery { input, topic } => {
                    let mut line = String::from_str(input.as_str());
                    line.append(" redelivers via ");
                    line.append(topic.as_str());
                    line.append(" at least once, re-driving interrupted invocations");
                    line
                },
                RetryDriver::InboundRepeatableRequest { operation, effect } => {
                    let mut line = String::from_str(operation.as_str());
                    line.append(" may repeat its request through ");
                    line.append(effect.as_str());
                    line.append(", re-driving interrupted invocations");
                    line
                },
                RetryDriver::InboundRepeatableTransitionEffect { machine, transition, effect } => {
                    let mut line = String::from_str("transition ");
                    line.append(transition.as_str());
                    line.append(" of ");
                    line.append(machine.as_str());
                    line.append(" may repeat its request through ");
                    line.append(effect.as_str());
                    line.append(", re-driving interrupted invocations");
                    line
                },
            };
            push_line(&mut lines, line);
            let more = resumption_assumptions(paths);
            push_lines(&mut lines, more);
            proof {
                assert(strings_view(lines@) =~= recoverability_lines(*argument));
            }
            lines
        },
    }
}

} // verus!
