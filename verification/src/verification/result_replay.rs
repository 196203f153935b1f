//! Verdicts for result-replay obligations: every attempt sharing a
//! governing key returns an equivalent result.
//!
//! Result replay is decided entirely from the program, so every proof
//! is `L0Only`.

use vstd::prelude::*;

use crate::diagnostic::{Diagnostic, DiagnosticCode, Evidence, Severity, VerificationCode};
use crate::model::{key_input, Id, IdempotencyKey, ResultVariant};

use super::idempotency::{holds_pair, pair_view, copy_pair};
use super::paths::{DecisionTaken, PathRef};
use super::replay::{DecisionGap, DecisionReplay, GoverningKeyDefect, StableRoot, UnstableRoot};
use super::scope::ProofScope;

verus! {

pub struct ResultReplayCheck {
    pub operation: Id,
    /// Index into the operation's idempotency requirements.
    pub requirement: usize,
    /// The governing key, copied so the check is self-contained.
    pub key: IdempotencyKey,
    pub verdict: ResultReplayVerdict,
    /// Set when the proof holds only together with the proofs of the
    /// requirements it reaches through request effects.
    pub coinductive: bool,
}

pub enum ResultReplayVerdict {
    Proven { argument: ResultReplayProof, scope: ProofScope },
    Unproven { obstacles: Vec<ResultReplayObstacle> },
}

pub enum ResultReplayProof {
    /// The triggering subscription admits no message schemas.
    NoAdmittedInvocations { input: Id },
    /// No admitted path returns a result for the triggering input.
    NoReturnedResult { input: Id },
    /// Every path returning a result for the triggering input replays
    /// its decisions, and the returned payload is replay-deterministic
    /// over the cited roots.
    ClassFixedResult { results: Vec<ReturnedResult> },
}

pub struct ReturnedResult {
    pub path: PathRef,
    pub variant: ResultVariant,
    /// Why every attempt in a class reaching this terminal took the
    /// same arms.
    pub decisions: Vec<DecisionReplay>,
    /// The stable roots the returned payload is derived from.
    pub derivation: Vec<StableRoot>,
}

pub enum ResultReplayObstacle {
    /// The governing key defines no pre-execution equivalence class.
    GoverningKeyInadmissible { defect: GoverningKeyDefect },
    /// A decision on a returning path is not established to replay.
    PathDecisionUnstable { path: PathRef, decision: DecisionTaken, gap: DecisionGap },
    /// The returned payload declares no provenance.
    ResultDerivationUnspecified { path: PathRef, request: Id },
    /// The returned payload depends on roots that are not
    /// replay-stable.
    ResultDerivationRootUnstable { path: PathRef, request: Id, roots: Vec<UnstableRoot> },
}

impl ResultReplayProof {
    /// No route consults a runtime fact, so every result-replay proof
    /// is `L0Only`.
    pub fn scope(&self) -> (r: ProofScope)
        ensures
            r == ProofScope::L0Only,
    {
        ProofScope::L0Only
    }
}

impl ResultReplayVerdict {
    pub fn proven(argument: ResultReplayProof) -> (r: Self)
        ensures
            r == (ResultReplayVerdict::Proven { argument, scope: ProofScope::L0Only }),
    {
        let scope = argument.scope();
        ResultReplayVerdict::Proven { argument, scope }
    }
}

/// The `(operation, input)` boundary a check's governing key is drawn
/// from, by text.
pub open spec fn replay_boundary(check: ResultReplayCheck) -> Option<(Seq<char>, Seq<char>)> {
    match key_input(check.key) {
        Option::Some(input) => Option::Some((check.operation@, input@)),
        Option::None => Option::None,
    }
}

pub open spec fn replay_proven(check: ResultReplayCheck) -> bool {
    check.verdict is Proven
}

/// The `(operation, input)` pairs whose replay-consistent result
/// requirement is proven: what a request into them may rely on.
pub fn consistent_set(checks: &Vec<ResultReplayCheck>) -> (r: Vec<(Id, Id)>)
    ensures
        forall|pair: (Seq<char>, Seq<char>)|
            holds_pair(r@, pair) <==> exists|j: int|
                0 <= j < checks@.len() && replay_proven(checks@[j]) && #[trigger] replay_boundary(
                    checks@[j],
                ) == Option::Some(pair),
{
    let mut out: Vec<(Id, Id)> = Vec::new();
    let ghost mut origin: Seq<int> = Seq::empty();
    let mut i: usize = 0;
    while i < checks.len()
        invariant
            i <= checks@.len(),
            origin.len() == out@.len(),
            forall|k: int|
                0 <= k < out@.len() ==> 0 <= #[trigger] origin[k] < i && replay_proven(
                    checks@[origin[k]],
                ) && replay_boundary(checks@[origin[k]]) == Option::Some(pair_view(out@[k])),
            forall|j: int|
                0 <= j < i && replay_proven(checks@[j]) && #[trigger] replay_boundary(checks@[j])
                    is Some ==> holds_pair(out@, replay_boundary(checks@[j])->0),
        decreases checks@.len() - i,
    {
        let check = &checks[i];
        let proven = match &check.verdict {
            ResultReplayVerdict::Proven { .. } => true,
            ResultReplayVerdict::Unproven { .. } => false,
        };
        if proven {
            match check.key.input() {
                Option::Some(input) => {
                    let ghost before = out@;
                    out.push(copy_pair(&check.operation, input));
                    proof {
                        origin = origin.push(i as int);
                        assert forall|j: int|
                            0 <= j < i + 1 && replay_proven(checks@[j])
                                && #[trigger] replay_boundary(checks@[j]) is Some implies holds_pair(
                            out@,
                            replay_boundary(checks@[j])->0,
                        ) by {
                            if j < i {
                                let k = choose|k: int|
                                    0 <= k < before.len() && pair_view(#[trigger] before[k])
                                        == replay_boundary(checks@[j])->0;
                                assert(out@[k] == before[k]);
                            } else {
                                assert(pair_view(out@[out@.len() - 1]) == replay_boundary(
                                    checks@[j],
                                )->0);
                            }
                        }
                        assert forall|k: int| 0 <= k < out@.len() implies 0 <= #[trigger] origin[k]
                            < i + 1 && replay_proven(checks@[origin[k]]) && replay_boundary(
                            checks@[origin[k]],
                        ) == Option::Some(pair_view(out@[k])) by {
                            if k < before.len() {
                                assert(out@[k] == before[k]);
                            }
                        }
                    }
                },
                Option::None => {},
            }
        }
        i += 1;
    }
    proof {
        assert forall|pair: (Seq<char>, Seq<char>)| holds_pair(out@, pair) implies exists|j: int|
            0 <= j < checks@.len() && replay_proven(checks@[j]) && #[trigger] replay_boundary(
                checks@[j],
            ) == Option::Some(pair) by {
            let k = choose|k: int| 0 <= k < out@.len() && pair_view(#[trigger] out@[k]) == pair;
            assert(replay_boundary(checks@[origin[k]]) == Option::Some(pair));
        }
    }
    out
}

pub open spec fn result_replay_message(check: ResultReplayCheck) -> Seq<char> {
    "Result replay for idempotency requirement "@ + crate::text::decimal(check.requirement as nat)
        + " of `"@ + check.operation@
        + "` is not established: retries sharing the declared key are not proven to return the same result."@
}

pub open spec fn result_replay_evidence_all(
    evidence: Seq<Evidence>,
    obstacles: Seq<ResultReplayObstacle>,
) -> bool {
    &&& evidence.len() == obstacles.len()
    &&& forall|i: int|
        0 <= i < obstacles.len() ==> (#[trigger] evidence[i]).subject
            == result_replay_evidence_subject(obstacles[i]) && evidence[i].message@
            == result_replay_evidence_text(obstacles[i])
}

/// `d` is the diagnostic of the unproven `check`: its code, unknown
/// severity, the operation as subject, its message, and one piece of
/// evidence per obstacle, in order.
pub open spec fn result_replay_diagnostic_is(d: Diagnostic, check: ResultReplayCheck) -> bool {
    &&& d.code == DiagnosticCode::Verification(VerificationCode::ResultReplayUnproven)
    &&& d.severity == Severity::Unknown
    &&& d.subject == Option::Some(check.operation)
    &&& d.message@ == result_replay_message(check)
    &&& check.verdict matches ResultReplayVerdict::Unproven { obstacles } && result_replay_evidence_all(d.evidence@, obstacles@)
}

impl ResultReplayCheck {
    /// The diagnostic for an unproven obligation; a proven one
    /// produces none.
    pub fn diagnostic(&self) -> (r: Option<Diagnostic>)
        ensures
            match self.verdict {
                ResultReplayVerdict::Proven { .. } => r is None,
                ResultReplayVerdict::Unproven { obstacles } => r matches Option::Some(d) && result_replay_diagnostic_is(d, *self),
            },
    {
        match &self.verdict {
            ResultReplayVerdict::Proven { .. } => Option::None,
            ResultReplayVerdict::Unproven { obstacles } => {
                let mut message = String::from_str("Result replay for idempotency requirement ");
                crate::text::push_decimal(&mut message, self.requirement);
                message.append(" of `");
                message.append(self.operation.as_str());
                message.append(
                    "` is not established: retries sharing the declared key are not proven to return the same result.",
                );
                let mut evidence: Vec<Evidence> = Vec::new();
                let mut i: usize = 0;
                while i < obstacles.len()
                    invariant
                        i <= obstacles@.len(),
                        result_replay_evidence_all(evidence@, obstacles@.take(i as int)),
                    decreases obstacles@.len() - i,
                {
                    evidence.push(obstacles[i].evidence());
                    i += 1;
                }
                proof {
                    assert(obstacles@.take(obstacles@.len() as int) =~= obstacles@);
                }
                Option::Some(
                    Diagnostic {
                        code: DiagnosticCode::Verification(VerificationCode::ResultReplayUnproven),
                        severity: Severity::Unknown,
                        subject: Option::Some(self.operation.clone()),
                        message,
                        evidence,
                    },
                )
            },
        }
    }
}

pub open spec fn result_replay_evidence_subject(obstacle: ResultReplayObstacle) -> Option<Id> {
    match obstacle {
        ResultReplayObstacle::GoverningKeyInadmissible { defect } => super::describe::governing_key_subject(defect),
        ResultReplayObstacle::PathDecisionUnstable { path, decision, gap } => Option::None,
        ResultReplayObstacle::ResultDerivationUnspecified { path, request } => Option::Some(request),
        ResultReplayObstacle::ResultDerivationRootUnstable { path, request, roots } => Option::Some(request),
    }
}

pub open spec fn result_replay_evidence_text(obstacle: ResultReplayObstacle) -> Seq<char> {
    match obstacle {
        ResultReplayObstacle::GoverningKeyInadmissible { defect } => super::describe::governing_key_text(defect),
        ResultReplayObstacle::PathDecisionUnstable { path, decision, gap } => "On "@ + super::describe::path_text(path) + ", "@ + super::describe::decision_text(decision) + " is not established to replay, so a retry may reach a different terminal: "@ + super::describe::decision_gap_text(gap) + "."@,
        ResultReplayObstacle::ResultDerivationUnspecified { path, request } => "The result "@ + super::describe::path_text(path) + " returns for `"@ + request@ + "` declares no provenance; no replay-consistency proof may be derived from it."@,
        ResultReplayObstacle::ResultDerivationRootUnstable { path, request, roots } => "The result "@ + super::describe::path_text(path) + " returns for `"@ + request@ + "` depends on roots that are not replay-stable: "@ + super::describe::unstable_roots_text(roots@, roots@.len()) + "."@,
    }
}

impl ResultReplayObstacle {
    pub fn evidence(&self) -> (r: Evidence)
        ensures
            r.subject == result_replay_evidence_subject(*self),
            r.message@ == result_replay_evidence_text(*self),
    {
        match self {
            ResultReplayObstacle::GoverningKeyInadmissible { defect } => super::describe::governing_key_evidence(defect),
            ResultReplayObstacle::PathDecisionUnstable { path, decision, gap } => {
                let mut text = String::from_str("On ");
                let part1 = super::describe::describe_path(path);
                text.append(part1.as_str());
                text.append(", ");
                let part2 = super::describe::describe_decision(decision);
                text.append(part2.as_str());
                text.append(" is not established to replay, so a retry may reach a different terminal: ");
                let part3 = super::describe::decision_gap_sentence(gap);
                text.append(part3.as_str());
                text.append(".");
                Evidence { subject: Option::None, message: text }
            },
            ResultReplayObstacle::ResultDerivationUnspecified { path, request } => {
                let mut text = String::from_str("The result ");
                let part1 = super::describe::describe_path(path);
                text.append(part1.as_str());
                text.append(" returns for `");
                text.append(request.as_str());
                text.append("` declares no provenance; no replay-consistency proof may be derived from it.");
                Evidence { subject: Option::Some(request.clone()), message: text }
            },
            ResultReplayObstacle::ResultDerivationRootUnstable { path, request, roots } => {
                let mut text = String::from_str("The result ");
                let part1 = super::describe::describe_path(path);
                text.append(part1.as_str());
                text.append(" returns for `");
                text.append(request.as_str());
                text.append("` depends on roots that are not replay-stable: ");
                let part2 = super::describe::unstable_roots(roots);
                text.append(part2.as_str());
                text.append(".");
                Evidence { subject: Option::Some(request.clone()), message: text }
            },
        }
    }
}

} // verus!
