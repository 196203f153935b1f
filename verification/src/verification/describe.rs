//! Sentences that name the analyzer's facts in diagnostics: governing
//! key defects, replay gaps, stability gaps, decisions, paths and
//! value references.
//!
//! Each sentence is a spec function on the fact, and the function that
//! renders it returns exactly that text.

use vstd::prelude::*;

use crate::diagnostic::Evidence;
use crate::model::{arm_text, outcome_text, result_arm_text, Arm, Id, ResultArm, ValueRef, ValueSource};

use super::paths::{DecisionTaken, PathRef};
use super::replay::{
    DecisionGap, GoverningKeyDefect, InstanceGap, PayloadIdentityGap, ReplayGap, ResultGap,
    StabilityGap, UnstableRoot,
};

verus! {

/// `prefix`, the text of `middle`, then `suffix`.
pub fn enclosed(prefix: &str, middle: &str, suffix: &str) -> (r: String)
    ensures
        r@ == prefix@ + middle@ + suffix@,
{
    let mut text = String::from_str(prefix);
    text.append(middle);
    text.append(suffix);
    text
}

// Value references.

pub open spec fn value_source_text(source: ValueSource) -> Seq<char> {
    match source {
        ValueSource::Input(id) => "input `"@ + id@ + "`"@,
        ValueSource::Effect(id) => "effect `"@ + id@ + "`"@,
        ValueSource::TransactionOutput(id) => "transaction output `"@ + id@ + "`"@,
        ValueSource::StateMachineSubject(id) => "state-machine subject `"@ + id@ + "`"@,
        ValueSource::TransactionRead(id) => "transaction read `"@ + id@ + "`"@,
        ValueSource::EffectResultOk(id) => "the ok payload of effect result `"@ + id@ + "`"@,
        ValueSource::EffectResultErr(id) => "the err payload of effect result `"@ + id@ + "`"@,
    }
}

/// A value source as a sentence names it.
pub fn describe_value_source(source: &ValueSource) -> (r: String)
    ensures
        r@ == value_source_text(*source),
{
    match source {
        ValueSource::Input(id) => enclosed("input `", id.as_str(), "`"),
        ValueSource::Effect(id) => enclosed("effect `", id.as_str(), "`"),
        ValueSource::TransactionOutput(id) => enclosed("transaction output `", id.as_str(), "`"),
        ValueSource::StateMachineSubject(id) => enclosed(
            "state-machine subject `",
            id.as_str(),
            "`",
        ),
        ValueSource::TransactionRead(id) => enclosed("transaction read `", id.as_str(), "`"),
        ValueSource::EffectResultOk(id) => enclosed(
            "the ok payload of effect result `",
            id.as_str(),
            "`",
        ),
        ValueSource::EffectResultErr(id) => enclosed(
            "the err payload of effect result `",
            id.as_str(),
            "`",
        ),
    }
}

pub open spec fn value_ref_text(value: ValueRef) -> Seq<char> {
    "the key (`"@ + value.path.text@ + "` of "@ + value_source_text(value.source) + ")"@
}

/// A key reference as a sentence names it.
pub fn describe_value_ref(value: &ValueRef) -> (r: String)
    ensures
        r@ == value_ref_text(*value),
{
    let mut text = enclosed("the key (`", value.path.text.as_str(), "` of ");
    let source = describe_value_source(&value.source);
    text.append(source.as_str());
    text.append(")");
    text
}

/// The identifier a value source names.
pub fn value_source_id(source: &ValueSource) -> (r: Option<&Id>)
    ensures
        r == Option::Some(&crate::model::source_id(*source)),
{
    Option::Some(source.id())
}

// Governing keys.

pub open spec fn governing_key_subject(defect: GoverningKeyDefect) -> Option<Id> {
    match defect {
        GoverningKeyDefect::InputNotDeclared { input } => Option::Some(input),
        _ => Option::None,
    }
}

pub open spec fn governing_key_text(defect: GoverningKeyDefect) -> Seq<char> {
    match defect {
        GoverningKeyDefect::Empty => "The governing key is empty: it places every attempt in one class, and essentially nothing is replay-stable relative to it."@,
        GoverningKeyDefect::ComponentNotFromInput { source } => "A governing-key component is sourced from "@
            + value_source_text(source)
            + ", which cannot define a pre-execution equivalence class."@,
        GoverningKeyDefect::ComponentsFromMultipleInputs { first, second } => "The governing key mixes components of inputs `"@
            + first@ + "` and `"@ + second@
            + "`; no single triggering input defines the population."@,
        GoverningKeyDefect::InputNotDeclared { input } => "The governing key names input `"@ + input@
            + "`, which the operation does not declare."@,
    }
}

/// The evidence a governing-key defect contributes.
pub fn governing_key_evidence(defect: &GoverningKeyDefect) -> (r: Evidence)
    ensures
        r.subject == governing_key_subject(*defect),
        r.message@ == governing_key_text(*defect),
{
    match defect {
        GoverningKeyDefect::Empty => Evidence {
            subject: Option::None,
            message: String::from_str(
                "The governing key is empty: it places every attempt in one class, and essentially nothing is replay-stable relative to it.",
            ),
        },
        GoverningKeyDefect::ComponentNotFromInput { source } => {
            let mut message = String::from_str("A governing-key component is sourced from ");
            let described = describe_value_source(source);
            message.append(described.as_str());
            message.append(", which cannot define a pre-execution equivalence class.");
            Evidence { subject: Option::None, message }
        },
        GoverningKeyDefect::ComponentsFromMultipleInputs { first, second } => {
            let mut message = enclosed(
                "The governing key mixes components of inputs `",
                first.as_str(),
                "` and `",
            );
            message.append(second.as_str());
            message.append("`; no single triggering input defines the population.");
            Evidence { subject: Option::None, message }
        },
        GoverningKeyDefect::InputNotDeclared { input } => Evidence {
            subject: Option::Some(input.clone()),
            message: enclosed(
                "The governing key names input `",
                input.as_str(),
                "`, which the operation does not declare.",
            ),
        },
    }
}

// Replay and stability gaps.

/// The sentence for a list of replay gaps: each gap's, joined by
/// semicolons, or a note that none was recorded.
pub open spec fn gaps_text(gaps: Seq<ReplayGap>) -> Seq<char>
    decreases gaps, 2nat, 0nat,
{
    if gaps.len() == 0 {
        "no gaps recorded"@
    } else {
        gap_list_text(gaps, gaps.len())
    }
}

/// The first `count` gaps' sentences, joined by semicolons.
pub open spec fn gap_list_text(gaps: Seq<ReplayGap>, count: nat) -> Seq<char>
    decreases gaps, 1nat, count,
{
    if count == 0 || count > gaps.len() {
        Seq::empty()
    } else if count == 1 {
        gap_text(gaps[0])
    } else {
        gap_list_text(gaps, (count - 1) as nat) + "; "@ + gap_text(gaps[count - 1])
    }
}

pub open spec fn gap_text(gap: ReplayGap) -> Seq<char>
    decreases gap, 0nat, 0nat,
{
    match gap {
        ReplayGap::NoKeyedCommit => "the transaction declares no keyed commit deduplication"@,
        ReplayGap::CommitKeyRootUnstable { root, gap } => "commit-key component `"@
            + root.path.text@ + "` is not replay-stable ("@ + stability_text(gap) + ")"@,
        ReplayGap::ContainsTransition => "the transaction applies a state transition, which V1 never replays naturally"@,
        ReplayGap::ContainsInsert => "the transaction inserts an object, and duplicate-identity insert outcomes are not yet defined"@,
        ReplayGap::ContainsDelete => "the transaction deletes objects, and deletion replay outcomes are not defined"@,
        ReplayGap::MutationTargetRootUnstable { root, gap } => "a mutation target depends on `"@
            + root.path.text@ + "`, which is not replay-stable ("@ + stability_text(gap) + ")"@,
        ReplayGap::MutationDerivationUnspecified => "a mutation declares no value provenance"@,
        ReplayGap::MutationDerivationRootUnstable { root, gap } => "a mutation value depends on `"@
            + root.path.text@ + "`, which is not replay-stable ("@ + stability_text(gap) + ")"@,
        ReplayGap::ArtifactDerivationUnspecified => "the artifact's establishment declares no value provenance"@,
        ReplayGap::ArtifactDerivationRootUnstable { root, gap } => "the artifact's values depend on `"@
            + root.path.text@ + "`, which is not replay-stable ("@ + stability_text(gap) + ")"@,
    }
}

pub open spec fn stability_text(gap: StabilityGap) -> Seq<char>
    decreases gap, 0nat, 0nat,
{
    match gap {
        StabilityGap::UnidentifiedPayloadField { input, identity } => match identity {
            PayloadIdentityGap::NotDeclared => "no declared identity makes non-key fields of `"@
                + input@ + "` replay-stable"@,
            PayloadIdentityGap::SchemaNotMapped { schema } => "no message identity is declared for admitted schema `"@
                + schema@ + "`"@,
            PayloadIdentityGap::NotPinnedByKey { schema, field } => match schema {
                Option::Some(schema) => "identity field `"@ + field.text@ + "` of `"@ + schema@
                    + "` is not pinned by the governing key"@,
                Option::None => "the declared identity field `"@ + field.text@
                    + "` is not pinned by the governing key"@,
            },
        },
        StabilityGap::NotTriggeringInput { input } => "it belongs to input `"@ + input@
            + "`, which does not trigger the key-bearing invocations"@,
        StabilityGap::MutableSubjectState { machine } => "it reads mutable state governed by `"@
            + machine@ + "`"@,
        StabilityGap::EffectPayloadRoot { effect } => "effect payloads such as `"@ + effect@
            + "` are not stable roots in V1"@,
        StabilityGap::TransactionReadRoot { read } => "it reaches transaction read `"@ + read@
            + "`, which is never replay-stable"@,
        StabilityGap::ArtifactUnavailable { artifact, transaction, recovery, reconstruction } => "artifact `"@
            + artifact@ + "`, established by `"@ + transaction@
            + "`, is replay-available through neither route; recovery: "@ + gaps_text(recovery@)
            + "; reconstruction: "@ + gaps_text(reconstruction@),
        StabilityGap::ArtifactNotInContext { artifact } => "artifact `"@ + artifact@
            + "` is not established before this point of the path"@,
        StabilityGap::ResultNotInContext { result } => "result `"@ + result@
            + "` is not bound before this point of the path"@,
        StabilityGap::ResultUnstable { result, effect, gap } => "effect result `"@ + result@
            + "` of `"@ + effect@ + "` is not replay-stable: "@ + result_gap_text(*gap),
    }
}

pub open spec fn result_gap_text(gap: ResultGap) -> Seq<char>
    decreases gap, 0nat, 0nat,
{
    match gap {
        ResultGap::InstanceNotClassFixed { gap } => "the instance is not class-fixed ("@
            + instance_gap_text(gap) + ")"@,
        ResultGap::RequestSchemaMismatch { expected, actual } => "the request declares schema `"@
            + actual@ + "`, but the targeted input declares `"@ + expected@
            + "`, so payload equality does not transfer"@,
        ResultGap::TargetResultNotDeclared { operation, input } => "`"@ + operation@
            + "` declares no replay-consistent result requirement keyed from `"@ + input@ + "`"@,
        ResultGap::TargetResultUnproven { operation, input } => "the replay-consistent result requirement of `"@
            + operation@ + "` keyed from `"@ + input@ + "` is not proven in this analysis"@,
        ResultGap::ExternalNotDeduplicated => "the external boundary is explicitly `not_deduplicated`, so no same-key terminal result is fixed"@,
        ResultGap::ExternalDeduplicationUnknown => "no deduplication fact is declared for the external boundary, so nothing identifies same-key executions as one logical interaction with one terminal result"@,
        ResultGap::ExternalDeduplicationKeyUnstable { roots } => "the external deduplication key is not replay-stable, so attempts may address different logical external interactions: "@
            + unstable_roots_text(roots@, roots@.len()),
        ResultGap::ExternalErrorRetryable => "the observed error is declared retryable \u{2014} an attempt-level, nonterminal outcome \u{2014} so it does not establish the logical interaction's terminal result, and a later attempt may observe a different one"@,
        ResultGap::ExternalErrorDispositionUnspecified => "the error's disposition is unspecified: no declared fact says whether observing it terminally resolves the logical external interaction"@,
        ResultGap::NoResultContract => "the effect contract yields no synchronous result"@,
        ResultGap::RaceWinnerNondeterministic { candidates } => "the result is bound by a `race` over ["@
            + candidates_text(candidates@, candidates@.len())
            + "]: which candidate completes first is scheduling nondeterminism, so retries are not established to observe the same winner"@,
    }
}

pub open spec fn instance_gap_text(gap: InstanceGap) -> Seq<char>
    decreases gap, 0nat, 0nat,
{
    match gap {
        InstanceGap::DerivationUnspecified => "its instance provenance is unspecified"@,
        InstanceGap::RootsUnstable { roots } => "its instance depends on roots that are not replay-stable: "@
            + unstable_roots_text(roots@, roots@.len()),
        InstanceGap::IntentNotEstablished { intent } => "intent `"@ + intent@
            + "` is established by no earlier step of the path"@,
        InstanceGap::IntentNotReplayAvailable { intent, transaction, recovery, reconstruction } => "intent `"@
            + intent@ + "` is established by `"@ + transaction@
            + "` but replay-available through neither route; recovery: "@ + gaps_text(recovery@)
            + "; reconstruction: "@ + gaps_text(reconstruction@),
    }
}

/// The first `count` unstable roots, each with why it is unstable,
/// joined by semicolons.
pub open spec fn unstable_roots_text(roots: Seq<UnstableRoot>, count: nat) -> Seq<char>
    decreases roots, 1nat, count,
{
    if count == 0 || count > roots.len() {
        Seq::empty()
    } else if count == 1 {
        unstable_root_text(roots[0])
    } else {
        unstable_roots_text(roots, (count - 1) as nat) + "; "@ + unstable_root_text(
            roots[count - 1],
        )
    }
}

pub open spec fn unstable_root_text(entry: UnstableRoot) -> Seq<char>
    decreases entry, 0nat, 0nat,
{
    "`"@ + entry.root.path.text@ + "` ("@ + stability_text(entry.gap) + ")"@
}

/// The first `count` race candidates, quoted and joined by commas.
pub open spec fn candidates_text(candidates: Seq<Id>, count: nat) -> Seq<char>
    decreases count,
{
    if count == 0 || count > candidates.len() {
        Seq::empty()
    } else if count == 1 {
        "`"@ + candidates[0]@ + "`"@
    } else {
        candidates_text(candidates, (count - 1) as nat) + ", `"@ + candidates[count - 1]@ + "`"@
    }
}

/// The sentence for a list of replay gaps.
pub fn gap_sentences(gaps: &Vec<ReplayGap>) -> (r: String)
    ensures
        r@ == gaps_text(gaps@),
    decreases gaps@, 2nat, 0nat,
{
    if gaps.len() == 0 {
        return String::from_str("no gaps recorded");
    }
    let mut text = String::new();
    let mut i: usize = 0;
    while i < gaps.len()
        invariant
            i <= gaps@.len(),
            text@ == gap_list_text(gaps@, i as nat),
        decreases gaps@.len() - i,
    {
        if i > 0 {
            text.append("; ");
        }
        proof {
            assert(decreases_to!(gaps@ => gaps@[i as int]));
        }
        let sentence = gap_sentence(&gaps[i]);
        text.append(sentence.as_str());
        i += 1;
    }
    text
}

/// The sentence for one replay gap.
pub fn gap_sentence(gap: &ReplayGap) -> (r: String)
    ensures
        r@ == gap_text(*gap),
    decreases *gap, 0nat, 0nat,
{
    match gap {
        ReplayGap::NoKeyedCommit => String::from_str(
            "the transaction declares no keyed commit deduplication",
        ),
        ReplayGap::CommitKeyRootUnstable { root, gap } => unstable_because(
            "commit-key component `",
            root,
            "` is not replay-stable (",
            gap,
        ),
        ReplayGap::ContainsTransition => String::from_str(
            "the transaction applies a state transition, which V1 never replays naturally",
        ),
        ReplayGap::ContainsInsert => String::from_str(
            "the transaction inserts an object, and duplicate-identity insert outcomes are not yet defined",
        ),
        ReplayGap::ContainsDelete => String::from_str(
            "the transaction deletes objects, and deletion replay outcomes are not defined",
        ),
        ReplayGap::MutationTargetRootUnstable { root, gap } => unstable_because(
            "a mutation target depends on `",
            root,
            "`, which is not replay-stable (",
            gap,
        ),
        ReplayGap::MutationDerivationUnspecified => String::from_str(
            "a mutation declares no value provenance",
        ),
        ReplayGap::MutationDerivationRootUnstable { root, gap } => unstable_because(
            "a mutation value depends on `",
            root,
            "`, which is not replay-stable (",
            gap,
        ),
        ReplayGap::ArtifactDerivationUnspecified => String::from_str(
            "the artifact's establishment declares no value provenance",
        ),
        ReplayGap::ArtifactDerivationRootUnstable { root, gap } => unstable_because(
            "the artifact's values depend on `",
            root,
            "`, which is not replay-stable (",
            gap,
        ),
    }
}

/// `lead`, the root's path, `middle`, why the root is unstable, and a
/// closing parenthesis.
fn unstable_because(lead: &str, root: &ValueRef, middle: &str, gap: &StabilityGap) -> (r: String)
    ensures
        r@ == lead@ + root.path.text@ + middle@ + stability_text(*gap) + ")"@,
    decreases *gap, 1nat, 0nat,
{
    let mut text = enclosed(lead, root.path.text.as_str(), middle);
    let reason = stability_sentence(gap);
    text.append(reason.as_str());
    text.append(")");
    text
}

/// Why a root is not replay-stable, as a clause.
pub fn stability_sentence(gap: &StabilityGap) -> (r: String)
    ensures
        r@ == stability_text(*gap),
    decreases *gap, 0nat, 0nat,
{
    match gap {
        StabilityGap::UnidentifiedPayloadField { input, identity } => match identity {
            PayloadIdentityGap::NotDeclared => enclosed(
                "no declared identity makes non-key fields of `",
                input.as_str(),
                "` replay-stable",
            ),
            PayloadIdentityGap::SchemaNotMapped { schema } => enclosed(
                "no message identity is declared for admitted schema `",
                schema.as_str(),
                "`",
            ),
            PayloadIdentityGap::NotPinnedByKey { schema, field } => match schema {
                Option::Some(schema) => {
                    let mut text = enclosed("identity field `", field.text.as_str(), "` of `");
                    text.append(schema.as_str());
                    text.append("` is not pinned by the governing key");
                    text
                },
                Option::None => enclosed(
                    "the declared identity field `",
                    field.text.as_str(),
                    "` is not pinned by the governing key",
                ),
            },
        },
        StabilityGap::NotTriggeringInput { input } => enclosed(
            "it belongs to input `",
            input.as_str(),
            "`, which does not trigger the key-bearing invocations",
        ),
        StabilityGap::MutableSubjectState { machine } => enclosed(
            "it reads mutable state governed by `",
            machine.as_str(),
            "`",
        ),
        StabilityGap::EffectPayloadRoot { effect } => enclosed(
            "effect payloads such as `",
            effect.as_str(),
            "` are not stable roots in V1",
        ),
        StabilityGap::TransactionReadRoot { read } => enclosed(
            "it reaches transaction read `",
            read.as_str(),
            "`, which is never replay-stable",
        ),
        StabilityGap::ArtifactUnavailable { artifact, transaction, recovery, reconstruction } => {
            let mut text = enclosed("artifact `", artifact.as_str(), "`, established by `");
            text.append(transaction.as_str());
            text.append("`, is replay-available through neither route; recovery: ");
            let first = gap_sentences(recovery);
            text.append(first.as_str());
            text.append("; reconstruction: ");
            let second = gap_sentences(reconstruction);
            text.append(second.as_str());
            text
        },
        StabilityGap::ArtifactNotInContext { artifact } => enclosed(
            "artifact `",
            artifact.as_str(),
            "` is not established before this point of the path",
        ),
        StabilityGap::ResultNotInContext { result } => enclosed(
            "result `",
            result.as_str(),
            "` is not bound before this point of the path",
        ),
        StabilityGap::ResultUnstable { result, effect, gap } => {
            let mut text = enclosed("effect result `", result.as_str(), "` of `");
            text.append(effect.as_str());
            text.append("` is not replay-stable: ");
            let reason = result_gap_sentence(&**gap);
            text.append(reason.as_str());
            text
        },
    }
}

/// Why a bound result is not observed equally, as a clause.
pub fn result_gap_sentence(gap: &ResultGap) -> (r: String)
    ensures
        r@ == result_gap_text(*gap),
    decreases *gap, 0nat, 0nat,
{
    match gap {
        ResultGap::InstanceNotClassFixed { gap } => {
            let mut text = String::from_str("the instance is not class-fixed (");
            let reason = instance_gap_sentence(gap);
            text.append(reason.as_str());
            text.append(")");
            text
        },
        ResultGap::RequestSchemaMismatch { expected, actual } => {
            let mut text = enclosed(
                "the request declares schema `",
                actual.as_str(),
                "`, but the targeted input declares `",
            );
            text.append(expected.as_str());
            text.append("`, so payload equality does not transfer");
            text
        },
        ResultGap::TargetResultNotDeclared { operation, input } => {
            let mut text = enclosed(
                "`",
                operation.as_str(),
                "` declares no replay-consistent result requirement keyed from `",
            );
            text.append(input.as_str());
            text.append("`");
            text
        },
        ResultGap::TargetResultUnproven { operation, input } => {
            let mut text = enclosed(
                "the replay-consistent result requirement of `",
                operation.as_str(),
                "` keyed from `",
            );
            text.append(input.as_str());
            text.append("` is not proven in this analysis");
            text
        },
        ResultGap::ExternalNotDeduplicated => String::from_str(
            "the external boundary is explicitly `not_deduplicated`, so no same-key terminal result is fixed",
        ),
        ResultGap::ExternalDeduplicationUnknown => String::from_str(
            "no deduplication fact is declared for the external boundary, so nothing identifies same-key executions as one logical interaction with one terminal result",
        ),
        ResultGap::ExternalDeduplicationKeyUnstable { roots } => {
            let mut text = String::from_str(
                "the external deduplication key is not replay-stable, so attempts may address different logical external interactions: ",
            );
            let listed = unstable_roots(roots);
            text.append(listed.as_str());
            text
        },
        ResultGap::ExternalErrorRetryable => String::from_str(
            "the observed error is declared retryable \u{2014} an attempt-level, nonterminal outcome \u{2014} so it does not establish the logical interaction's terminal result, and a later attempt may observe a different one",
        ),
        ResultGap::ExternalErrorDispositionUnspecified => String::from_str(
            "the error's disposition is unspecified: no declared fact says whether observing it terminally resolves the logical external interaction",
        ),
        ResultGap::NoResultContract => String::from_str(
            "the effect contract yields no synchronous result",
        ),
        ResultGap::RaceWinnerNondeterministic { candidates } => {
            let mut text = String::from_str("the result is bound by a `race` over [");
            let mut i: usize = 0;
            while i < candidates.len()
                invariant
                    i <= candidates@.len(),
                    text@ == "the result is bound by a `race` over ["@ + candidates_text(
                        candidates@,
                        i as nat,
                    ),
                decreases candidates@.len() - i,
            {
                let ghost before = text@;
                if i > 0 {
                    text.append(", `");
                } else {
                    text.append("`");
                }
                text.append(candidates[i].as_str());
                text.append("`");
                proof {
                    assert(text@ =~= "the result is bound by a `race` over ["@ + candidates_text(
                        candidates@,
                        (i + 1) as nat,
                    ));
                }
                i += 1;
            }
            text.append(
                "]: which candidate completes first is scheduling nondeterminism, so retries are not established to observe the same winner",
            );
            text
        },
    }
}

/// Why an effect instance is not class-fixed, as a clause.
pub fn instance_gap_sentence(gap: &InstanceGap) -> (r: String)
    ensures
        r@ == instance_gap_text(*gap),
    decreases *gap, 0nat, 0nat,
{
    match gap {
        InstanceGap::DerivationUnspecified => String::from_str(
            "its instance provenance is unspecified",
        ),
        InstanceGap::RootsUnstable { roots } => {
            let mut text = String::from_str(
                "its instance depends on roots that are not replay-stable: ",
            );
            let listed = unstable_roots(roots);
            text.append(listed.as_str());
            text
        },
        InstanceGap::IntentNotEstablished { intent } => enclosed(
            "intent `",
            intent.as_str(),
            "` is established by no earlier step of the path",
        ),
        InstanceGap::IntentNotReplayAvailable { intent, transaction, recovery, reconstruction } => {
            let mut text = enclosed("intent `", intent.as_str(), "` is established by `");
            text.append(transaction.as_str());
            text.append("` but replay-available through neither route; recovery: ");
            let first = gap_sentences(recovery);
            text.append(first.as_str());
            text.append("; reconstruction: ");
            let second = gap_sentences(reconstruction);
            text.append(second.as_str());
            text
        },
    }
}

/// Unstable roots, each with why it is unstable, joined by
/// semicolons.
pub fn unstable_roots(roots: &Vec<UnstableRoot>) -> (r: String)
    ensures
        r@ == unstable_roots_text(roots@, roots@.len()),
    decreases roots@, 1nat, 0nat,
{
    let mut text = String::new();
    let mut i: usize = 0;
    while i < roots.len()
        invariant
            i <= roots@.len(),
            text@ == unstable_roots_text(roots@, i as nat),
        decreases roots@.len() - i,
    {
        if i > 0 {
            text.append("; ");
        }
        proof {
            assert(decreases_to!(roots@ => roots@[i as int]));
        }
        let entry = &roots[i];
        let mut one = enclosed("`", entry.root.path.text.as_str(), "` (");
        let reason = stability_sentence(&entry.gap);
        one.append(reason.as_str());
        one.append(")");
        text.append(one.as_str());
        proof {
            assert(one@ == unstable_root_text(roots@[i as int]));
            assert(text@ =~= unstable_roots_text(roots@, (i + 1) as nat));
        }
        i += 1;
    }
    text
}

/// Why a retry is not established to take the same arm, as a clause.
pub open spec fn decision_gap_text(gap: DecisionGap) -> Seq<char> {
    match gap {
        DecisionGap::ConditionUnspecified => "the condition declares no fact about how the decision is made"@,
        DecisionGap::ConditionRootsUnstable { roots } => "the condition depends on roots that are not replay-stable: "@
            + unstable_roots_text(roots@, roots@.len()),
        DecisionGap::ResultNotInContext { result } => "result `"@ + result@
            + "` is bound by no earlier step of the path"@,
        DecisionGap::ResultUnstable { result, effect, gap } => "result `"@ + result@ + "` of `"@
            + effect@ + "` is not replay-stable: "@ + result_gap_text(gap),
    }
}

pub fn decision_gap_sentence(gap: &DecisionGap) -> (r: String)
    ensures
        r@ == decision_gap_text(*gap),
{
    match gap {
        DecisionGap::ConditionUnspecified => String::from_str(
            "the condition declares no fact about how the decision is made",
        ),
        DecisionGap::ConditionRootsUnstable { roots } => {
            let mut text = String::from_str(
                "the condition depends on roots that are not replay-stable: ",
            );
            let listed = unstable_roots(roots);
            text.append(listed.as_str());
            text
        },
        DecisionGap::ResultNotInContext { result } => enclosed(
            "result `",
            result.as_str(),
            "` is bound by no earlier step of the path",
        ),
        DecisionGap::ResultUnstable { result, effect, gap } => {
            let mut text = enclosed("result `", result.as_str(), "` of `");
            text.append(effect.as_str());
            text.append("` is not replay-stable: ");
            let reason = result_gap_sentence(gap);
            text.append(reason.as_str());
            text
        },
    }
}

// Decisions and paths.

/// The name of an arm as text.
pub fn arm_name(arm: &Arm) -> (r: String)
    ensures
        r@ == arm_text(*arm),
{
    match arm {
        Arm::Failure(error) => error.clone(),
        _ => String::from_str(arm.text()),
    }
}

/// The name of a result arm as text.
pub fn result_arm_name(arm: &ResultArm) -> (r: String)
    ensures
        r@ == result_arm_text(*arm),
{
    match arm {
        ResultArm::Success => String::from_str("ok"),
        ResultArm::Failure(error) => error.clone(),
    }
}

pub open spec fn decision_text(taken: DecisionTaken) -> Seq<char> {
    match taken {
        DecisionTaken::Match { location, result, arm } => "the match on `"@ + result@
            + "` at step `"@ + location.label@ + "`, taking its `"@ + result_arm_text(arm)
            + "` arm"@,
        DecisionTaken::Branch { location, arm } => "the branch at step `"@ + location.label@
            + "`, taking its `"@ + arm_text(arm) + "` arm"@,
        DecisionTaken::Transaction { location, transaction, outcome } => "the outcome of `"@
            + transaction@ + "` at step `"@ + location.label@ + "`, taking its `"@
            + outcome_text(outcome) + "` arm"@,
    }
}

/// A decision as a sentence names it.
pub fn describe_decision(taken: &DecisionTaken) -> (r: String)
    ensures
        r@ == decision_text(*taken),
{
    match taken {
        DecisionTaken::Match { location, result, arm } => {
            let mut text = enclosed("the match on `", result.as_str(), "` at step `");
            text.append(location.label.as_str());
            text.append("`, taking its `");
            let name = result_arm_name(arm);
            text.append(name.as_str());
            text.append("` arm");
            text
        },
        DecisionTaken::Branch { location, arm } => {
            let mut text = enclosed(
                "the branch at step `",
                location.label.as_str(),
                "`, taking its `",
            );
            let name = arm_name(arm);
            text.append(name.as_str());
            text.append("` arm");
            text
        },
        DecisionTaken::Transaction { location, transaction, outcome } => {
            let mut text = enclosed("the outcome of `", transaction.as_str(), "` at step `");
            text.append(location.label.as_str());
            text.append("`, taking its `");
            text.append(outcome.text());
            text.append("` arm");
            text
        },
    }
}

/// One decision as a path label names it: the arm, then what was
/// decided in parentheses.
pub open spec fn decision_label_text(taken: DecisionTaken) -> Seq<char> {
    match taken {
        DecisionTaken::Match { result, arm, .. } => result_arm_text(arm) + "("@ + result@ + ")"@,
        DecisionTaken::Branch { location, arm } => arm_text(arm) + "(step "@ + location.label@
            + ")"@,
        DecisionTaken::Transaction { transaction, outcome, .. } => outcome_text(outcome) + "("@
            + transaction@ + ")"@,
    }
}

/// The labels of the first `count` decisions, joined by `›`.
pub open spec fn path_label_text(decisions: Seq<DecisionTaken>, count: nat) -> Seq<char>
    decreases count,
{
    if count == 0 || count > decisions.len() {
        Seq::empty()
    } else if count == 1 {
        decision_label_text(decisions[0])
    } else {
        path_label_text(decisions, (count - 1) as nat) + " \u{203a} "@ + decision_label_text(
            decisions[count - 1],
        )
    }
}

/// The compact label of a path: `ok(payment) › then(step 3)`.
pub fn path_label(path: &PathRef) -> (r: String)
    ensures
        r@ == path_label_text(path.decisions@, path.decisions@.len()),
{
    let mut text = String::new();
    let mut i: usize = 0;
    while i < path.decisions.len()
        invariant
            i <= path.decisions@.len(),
            text@ == path_label_text(path.decisions@, i as nat),
        decreases path.decisions@.len() - i,
    {
        if i > 0 {
            text.append(" \u{203a} ");
        }
        let label = match &path.decisions[i] {
            DecisionTaken::Match { result, arm, .. } => {
                let mut label = result_arm_name(arm);
                label.append("(");
                label.append(result.as_str());
                label.append(")");
                label
            },
            DecisionTaken::Branch { location, arm } => {
                let mut label = arm_name(arm);
                label.append("(step ");
                label.append(location.label.as_str());
                label.append(")");
                label
            },
            DecisionTaken::Transaction { transaction, outcome, .. } => {
                let mut label = String::from_str(outcome.text());
                label.append("(");
                label.append(transaction.as_str());
                label.append(")");
                label
            },
        };
        text.append(label.as_str());
        i += 1;
    }
    text
}

pub open spec fn path_text(path: PathRef) -> Seq<char> {
    if path.decisions@.len() == 0 {
        "the program"@
    } else {
        "the path `"@ + path_label_text(path.decisions@, path.decisions@.len()) + "`"@
    }
}

/// A path as a sentence names it: the program itself when it has no
/// decisions, else the arms taken.
pub fn describe_path(path: &PathRef) -> (r: String)
    ensures
        r@ == path_text(*path),
{
    if path.decisions.len() == 0 {
        return String::from_str("the program");
    }
    let label = path_label(path);
    enclosed("the path `", label.as_str(), "`")
}

pub open spec fn capitalized_path_text(path: PathRef) -> Seq<char> {
    if path.decisions@.len() == 0 {
        "The program"@
    } else {
        "The path `"@ + path_label_text(path.decisions@, path.decisions@.len()) + "`"@
    }
}

/// A path as a sentence that opens with it names it.
pub fn capitalized_path(path: &PathRef) -> (r: String)
    ensures
        r@ == capitalized_path_text(*path),
{
    if path.decisions.len() == 0 {
        return String::from_str("The program");
    }
    let label = path_label(path);
    enclosed("The path `", label.as_str(), "`")
}

} // verus!
