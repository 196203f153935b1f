//! Verdicts for recoverability requirements: the logical invocation a
//! key identifies reaches a valid terminal of the operation program
//! after any modeled interruption.
//!
//! Recoverability is a progress obligation, separate from
//! idempotency's safety obligation: resumability rests on the program
//! alone, and a guaranteed completion on the modeled retry driver.

use vstd::prelude::*;

use crate::diagnostic::{Diagnostic, DiagnosticCode, Evidence, Severity, VerificationCode};
use crate::model::{CompletionRequirement, DeliverySemantics, Id, IdempotencyKey};

use super::paths::PathRef;
use super::replay::{ArtifactReplay, GoverningKeyDefect, ReplayGap, StableRoot};
use super::scope::ProofScope;

verus! {

/// The verdict for one declared recoverability requirement.
pub struct RecoverabilityCheck {
    pub operation: Id,
    /// Index into the operation's recoverability requirements.
    pub requirement: usize,
    /// The governing key, copied so the check is self-contained.
    pub key: IdempotencyKey,
    pub completion: CompletionRequirement,
    pub verdict: RecoverabilityVerdict,
    /// Facts that do not bear on the verdict but belong next to it.
    pub notes: Vec<RecoverabilityNote>,
}

pub enum RecoverabilityVerdict {
    Proven { argument: RecoverabilityProof, scope: ProofScope },
    Unproven { obstacles: Vec<RecoverabilityObstacle> },
}

pub enum RecoverabilityProof {
    /// The triggering subscription admits no message schemas.
    NoAdmittedInvocations { input: Id },
    /// Every admitted path resumes from every failing prefix.
    Resumable { paths: Vec<PathResumption> },
    /// Resumable, and a modeled driver re-drives interrupted
    /// invocations.
    Guaranteed { driver: RetryDriver, paths: Vec<PathResumption> },
}

/// The same-path continuation argument for one admitted path.
pub struct PathResumption {
    pub path: PathRef,
    /// Re-encounter resolution per transaction step, in path order.
    pub transactions: Vec<TransactionResolution>,
    /// Every artifact a later step consumes, with its replay route.
    pub artifacts: Vec<ArtifactAvailability>,
}

pub struct TransactionResolution {
    pub transaction: Id,
    pub resolution: Resolution,
}

pub enum Resolution {
    /// The re-encounter resolves the single keyed commit, whose key is
    /// stable through the cited rules.
    KeyedCommit { key: Vec<StableRoot> },
    /// The re-encounter safely re-executes the naturally replayable
    /// body.
    NaturalReplay,
    /// The transaction is the final step of a path ending at
    /// `complete`, so it is never re-encountered by a resumption.
    TerminalStep,
}

pub struct ArtifactAvailability {
    pub artifact: Id,
    pub replay: ArtifactReplay,
}

/// The modeled fact that re-drives interrupted invocations.
pub enum RetryDriver {
    /// The triggering subscription declares at-least-once delivery.
    AtLeastOnceDelivery { input: Id, topic: Id },
    /// A modeled caller declares a repeatable request effect targeting
    /// the triggering input.
    InboundRepeatableRequest { operation: Id, effect: Id },
    /// A state-machine transition side effect is a repeatable request
    /// targeting the triggering input.
    InboundRepeatableTransitionEffect { machine: Id, transition: Id, effect: Id },
}

pub enum RecoverabilityObstacle {
    /// The governing key defines no pre-execution equivalence class.
    GoverningKeyInadmissible { defect: GoverningKeyDefect },
    /// No path of the program is completable by invocations of the
    /// triggering input.
    NoAdmittedPath { input: Id },
    /// The path falls off the end of the program without a terminal.
    PathNotTerminated { path: PathRef },
    /// A committed transaction the resumption re-encounters resolves by
    /// neither route.
    TransactionNotResolvable {
        path: PathRef,
        transaction: Id,
        recovery: Vec<ReplayGap>,
        reconstruction: Vec<ReplayGap>,
    },
    /// A later step consumes an artifact no earlier step establishes.
    ArtifactNotEstablished { path: PathRef, artifact: Id, consumer: Id },
    /// A consumed artifact is replay-available through neither route.
    ArtifactNotReplayAvailable {
        path: PathRef,
        artifact: Id,
        transaction: Id,
        recovery: Vec<ReplayGap>,
        reconstruction: Vec<ReplayGap>,
    },
    /// Completion is `guaranteed`, but no modeled driver re-drives
    /// interrupted invocations of the triggering input: `delivery` is
    /// the subscription's declared delivery, or `None` for a request
    /// input with no modeled repeatable caller.
    NoModeledRetryDriver { input: Id, delivery: Option<DeliverySemantics> },
}

/// A fact that does not bear on a verdict but belongs next to it.
pub enum RecoverabilityNote {
    /// Completion is guaranteed by a retry driver, yet the operation
    /// declares no idempotency requirement keyed from the triggering
    /// input, so the safety of those retries is undeclared.
    RetrySafetyUndeclared { input: Id },
}

/// Delivery is a realization fact; a caller's `may_repeat` is an L0
/// guarantee about the request effect.
pub open spec fn driver_scope(driver: RetryDriver) -> ProofScope {
    match driver {
        RetryDriver::AtLeastOnceDelivery { .. } => ProofScope::RuntimeDependent,
        _ => ProofScope::L0Only,
    }
}

/// Resumability rests entirely on the program; only a guaranteed
/// completion consults the driver.
pub open spec fn recoverability_scope(argument: RecoverabilityProof) -> ProofScope {
    match argument {
        RecoverabilityProof::Guaranteed { driver, .. } => driver_scope(driver),
        _ => ProofScope::L0Only,
    }
}

impl RetryDriver {
    pub fn scope(&self) -> (r: ProofScope)
        ensures
            r == driver_scope(*self),
    {
        match self {
            RetryDriver::AtLeastOnceDelivery { .. } => ProofScope::RuntimeDependent,
            RetryDriver::InboundRepeatableRequest { .. }
            | RetryDriver::InboundRepeatableTransitionEffect { .. } => ProofScope::L0Only,
        }
    }
}

impl RecoverabilityProof {
    pub fn scope(&self) -> (r: ProofScope)
        ensures
            r == recoverability_scope(*self),
    {
        match self {
            RecoverabilityProof::NoAdmittedInvocations { .. }
            | RecoverabilityProof::Resumable { .. } => ProofScope::L0Only,
            RecoverabilityProof::Guaranteed { driver, .. } => driver.scope(),
        }
    }
}

impl RecoverabilityVerdict {
    pub fn proven(argument: RecoverabilityProof) -> (r: Self)
        ensures
            r == (RecoverabilityVerdict::Proven { scope: recoverability_scope(argument), argument }),
    {
        let scope = argument.scope();
        RecoverabilityVerdict::Proven { argument, scope }
    }
}

pub open spec fn completion_text(completion: CompletionRequirement) -> Seq<char> {
    match completion {
        CompletionRequirement::Resumable => "resumable"@,
        CompletionRequirement::Guaranteed => "guaranteed"@,
    }
}

pub open spec fn recoverability_message(check: RecoverabilityCheck) -> Seq<char> {
    "Recoverability requirement "@ + crate::text::decimal(check.requirement as nat) + " of `"@
        + check.operation@ + "` (`"@ + completion_text(check.completion)
        + "`) is not established: interrupted invocations sharing the declared key are not proven to reach a terminal of the operation program."@
}

pub open spec fn recoverability_evidence_all(
    evidence: Seq<Evidence>,
    obstacles: Seq<RecoverabilityObstacle>,
) -> bool {
    &&& evidence.len() == obstacles.len()
    &&& forall|i: int|
        0 <= i < obstacles.len() ==> (#[trigger] evidence[i]).subject
            == recoverability_evidence_subject(obstacles[i]) && evidence[i].message@
            == recoverability_evidence_text(obstacles[i])
}

pub open spec fn note_message(note: RecoverabilityNote, operation: Id, requirement: usize) -> Seq<char> {
    match note {
        RecoverabilityNote::RetrySafetyUndeclared { input } => "Recoverability requirement "@
            + crate::text::decimal(requirement as nat) + " of `"@ + operation@
            + "` guarantees completion through retries, but `"@ + operation@
            + "` declares no idempotency requirement keyed from `"@ + input@
            + "`: the retries are expected, and their safety is undeclared and unverified."@,
    }
}

/// `d` is the warning `note` raises for requirement `requirement` of
/// `operation`.
pub open spec fn is_note_diagnostic(
    d: Diagnostic,
    note: RecoverabilityNote,
    operation: Id,
    requirement: usize,
) -> bool {
    &&& d.code == DiagnosticCode::Verification(
        VerificationCode::RecoverabilityRetrySafetyUndeclared,
    )
    &&& d.severity == Severity::Warning
    &&& d.subject == Option::Some(operation)
    &&& d.message@ == note_message(note, operation, requirement)
    &&& d.evidence@.len() == 1
    &&& d.evidence@[0].subject == note_evidence_subject(note)
    &&& d.evidence@[0].message@ == note_evidence_text(note)
}

impl RecoverabilityNote {
    pub fn diagnostic(&self, operation: &Id, requirement: usize) -> (r: Diagnostic)
        ensures
            is_note_diagnostic(r, *self, *operation, requirement),
    {
        match self {
            RecoverabilityNote::RetrySafetyUndeclared { input } => {
                let mut message = String::from_str("Recoverability requirement ");
                crate::text::push_decimal(&mut message, requirement);
                message.append(" of `");
                message.append(operation.as_str());
                message.append("` guarantees completion through retries, but `");
                message.append(operation.as_str());
                message.append("` declares no idempotency requirement keyed from `");
                message.append(input.as_str());
                message.append(
                    "`: the retries are expected, and their safety is undeclared and unverified.",
                );
                let mut evidence: Vec<Evidence> = Vec::new();
                evidence.push(self.evidence());
                Diagnostic {
                    code: DiagnosticCode::Verification(
                        VerificationCode::RecoverabilityRetrySafetyUndeclared,
                    ),
                    severity: Severity::Warning,
                    subject: Option::Some(operation.clone()),
                    message,
                    evidence,
                }
            },
        }
    }
}

/// `d` is the diagnostic of the unproven `check`: its code, unknown
/// severity, the operation as subject, its message, and one piece of
/// evidence per obstacle, in order.
pub open spec fn recoverability_diagnostic_is(d: Diagnostic, check: RecoverabilityCheck) -> bool {
    &&& d.code == DiagnosticCode::Verification(VerificationCode::RecoverabilityUnproven)
    &&& d.severity == Severity::Unknown
    &&& d.subject == Option::Some(check.operation)
    &&& d.message@ == recoverability_message(check)
    &&& check.verdict matches RecoverabilityVerdict::Unproven { obstacles } && recoverability_evidence_all(d.evidence@, obstacles@)
}

impl RecoverabilityCheck {
    /// The warnings this check's notes raise, in order.
    pub fn note_diagnostics(&self) -> (r: Vec<Diagnostic>)
        ensures
            r@.len() == self.notes@.len(),
            forall|i: int|
                0 <= i < r@.len() ==> is_note_diagnostic(
                    #[trigger] r@[i],
                    self.notes@[i],
                    self.operation,
                    self.requirement,
                ),
    {
        let mut out: Vec<Diagnostic> = Vec::new();
        let mut i: usize = 0;
        while i < self.notes.len()
            invariant
                i <= self.notes@.len(),
                out@.len() == i,
                forall|k: int|
                    0 <= k < i ==> is_note_diagnostic(
                        #[trigger] out@[k],
                        self.notes@[k],
                        self.operation,
                        self.requirement,
                    ),
            decreases self.notes@.len() - i,
        {
            out.push(self.notes[i].diagnostic(&self.operation, self.requirement));
            i += 1;
        }
        out
    }

    /// The diagnostic for an unproven requirement; a proven one
    /// produces none.
    pub fn diagnostic(&self) -> (r: Option<Diagnostic>)
        ensures
            match self.verdict {
                RecoverabilityVerdict::Proven { .. } => r is None,
                RecoverabilityVerdict::Unproven { obstacles } => r matches Option::Some(d) && recoverability_diagnostic_is(d, *self),
            },
    {
        match &self.verdict {
            RecoverabilityVerdict::Proven { .. } => Option::None,
            RecoverabilityVerdict::Unproven { obstacles } => {
                let mut message = String::from_str("Recoverability requirement ");
                crate::text::push_decimal(&mut message, self.requirement);
                message.append(" of `");
                message.append(self.operation.as_str());
                message.append("` (`");
                match self.completion {
                    CompletionRequirement::Resumable => message.append("resumable"),
                    CompletionRequirement::Guaranteed => message.append("guaranteed"),
                }
                message.append(
                    "`) is not established: interrupted invocations sharing the declared key are not proven to reach a terminal of the operation program.",
                );
                let mut evidence: Vec<Evidence> = Vec::new();
                let mut i: usize = 0;
                while i < obstacles.len()
                    invariant
                        i <= obstacles@.len(),
                        recoverability_evidence_all(evidence@, obstacles@.take(i as int)),
                    decreases obstacles@.len() - i,
                {
                    evidence.push(obstacles[i].evidence());
                    i += 1;
                }
                proof {
                    assert(obstacles@.take(obstacles@.len() as int) =~= obstacles@);
                }
                Option::Some(
                    Diagnostic {
                        code: DiagnosticCode::Verification(
                            VerificationCode::RecoverabilityUnproven,
                        ),
                        severity: Severity::Unknown,
                        subject: Option::Some(self.operation.clone()),
                        message,
                        evidence,
                    },
                )
            },
        }
    }
}

pub open spec fn recoverability_evidence_subject(obstacle: RecoverabilityObstacle) -> Option<Id> {
    match obstacle {
        RecoverabilityObstacle::GoverningKeyInadmissible { defect } => super::describe::governing_key_subject(defect),
        RecoverabilityObstacle::NoAdmittedPath { input } => Option::Some(input),
        RecoverabilityObstacle::PathNotTerminated { path } => Option::None,
        RecoverabilityObstacle::TransactionNotResolvable { path, transaction, recovery, reconstruction } => Option::Some(transaction),
        RecoverabilityObstacle::ArtifactNotEstablished { path, artifact, consumer } => Option::Some(artifact),
        RecoverabilityObstacle::ArtifactNotReplayAvailable { path, artifact, transaction, recovery, reconstruction } => Option::Some(transaction),
        RecoverabilityObstacle::NoModeledRetryDriver { input, delivery: Option::Some(DeliverySemantics::AtMostOnce) } => Option::Some(input),
        RecoverabilityObstacle::NoModeledRetryDriver { input, delivery: Option::Some(_) } => Option::Some(input),
        RecoverabilityObstacle::NoModeledRetryDriver { input, delivery: Option::None } => Option::Some(input),
    }
}

pub open spec fn recoverability_evidence_text(obstacle: RecoverabilityObstacle) -> Seq<char> {
    match obstacle {
        RecoverabilityObstacle::GoverningKeyInadmissible { defect } => super::describe::governing_key_text(defect),
        RecoverabilityObstacle::NoAdmittedPath { input } => "No path of the program is completable by invocations of `"@ + input@ + "`: every path returns another input's result."@,
        RecoverabilityObstacle::PathNotTerminated { path } => super::describe::capitalized_path_text(path) + " falls off the end of the program without reaching a `return` or `complete` terminal."@,
        RecoverabilityObstacle::TransactionNotResolvable { path, transaction, recovery, reconstruction } => "Resuming "@ + super::describe::path_text(path) + " re-encounters `"@ + transaction@ + "` after it may have committed, but the commit resolves by neither route. Recovery: "@ + super::describe::gaps_text(recovery@) + ". Reconstruction: "@ + super::describe::gaps_text(reconstruction@) + "."@,
        RecoverabilityObstacle::ArtifactNotEstablished { path, artifact, consumer } => super::describe::capitalized_path_text(path) + " consumes artifact `"@ + artifact@ + "` at `"@ + consumer@ + "`, but no earlier step establishes it."@,
        RecoverabilityObstacle::ArtifactNotReplayAvailable { path, artifact, transaction, recovery, reconstruction } => super::describe::capitalized_path_text(path) + " consumes artifact `"@ + artifact@ + "`, established by `"@ + transaction@ + "`, but a resumption can supply it through neither route. Recovery: "@ + super::describe::gaps_text(recovery@) + ". Reconstruction: "@ + super::describe::gaps_text(reconstruction@) + "."@,
        RecoverabilityObstacle::NoModeledRetryDriver { input, delivery: Option::Some(DeliverySemantics::AtMostOnce) } => "Completion is guaranteed, but subscription `"@ + input@ + "` declares `at_most_once` delivery: interrupted invocations are not redelivered."@,
        RecoverabilityObstacle::NoModeledRetryDriver { input, delivery: Option::Some(_) } => "Completion is guaranteed, but subscription `"@ + input@ + "` declares no delivery fact that re-drives interrupted invocations."@,
        RecoverabilityObstacle::NoModeledRetryDriver { input, delivery: Option::None } => "Completion is guaranteed, but request input `"@ + input@ + "` has no modeled caller declaring a `may_repeat` request effect, so nothing in the model re-drives interrupted invocations."@,
    }
}

impl RecoverabilityObstacle {
    pub fn evidence(&self) -> (r: Evidence)
        ensures
            r.subject == recoverability_evidence_subject(*self),
            r.message@ == recoverability_evidence_text(*self),
    {
        match self {
            RecoverabilityObstacle::GoverningKeyInadmissible { defect } => super::describe::governing_key_evidence(defect),
            RecoverabilityObstacle::NoAdmittedPath { input } => {
                let mut text = String::from_str("No path of the program is completable by invocations of `");
                text.append(input.as_str());
                text.append("`: every path returns another input's result.");
                Evidence { subject: Option::Some(input.clone()), message: text }
            },
            RecoverabilityObstacle::PathNotTerminated { path } => {
                let mut text = super::describe::capitalized_path(path);
                text.append(" falls off the end of the program without reaching a `return` or `complete` terminal.");
                Evidence { subject: Option::None, message: text }
            },
            RecoverabilityObstacle::TransactionNotResolvable { path, transaction, recovery, reconstruction } => {
                let mut text = String::from_str("Resuming ");
                let part1 = super::describe::describe_path(path);
                text.append(part1.as_str());
                text.append(" re-encounters `");
                text.append(transaction.as_str());
                text.append("` after it may have committed, but the commit resolves by neither route. Recovery: ");
                let part2 = super::describe::gap_sentences(recovery);
                text.append(part2.as_str());
                text.append(". Reconstruction: ");
                let part3 = super::describe::gap_sentences(reconstruction);
                text.append(part3.as_str());
                text.append(".");
                Evidence { subject: Option::Some(transaction.clone()), message: text }
            },
            RecoverabilityObstacle::ArtifactNotEstablished { path, artifact, consumer } => {
                let mut text = super::describe::capitalized_path(path);
                text.append(" consumes artifact `");
                text.append(artifact.as_str());
                text.append("` at `");
                text.append(consumer.as_str());
                text.append("`, but no earlier step establishes it.");
                Evidence { subject: Option::Some(artifact.clone()), message: text }
            },
            RecoverabilityObstacle::ArtifactNotReplayAvailable { path, artifact, transaction, recovery, reconstruction } => {
                let mut text = super::describe::capitalized_path(path);
                text.append(" consumes artifact `");
                text.append(artifact.as_str());
                text.append("`, established by `");
                text.append(transaction.as_str());
                text.append("`, but a resumption can supply it through neither route. Recovery: ");
                let part1 = super::describe::gap_sentences(recovery);
                text.append(part1.as_str());
                text.append(". Reconstruction: ");
                let part2 = super::describe::gap_sentences(reconstruction);
                text.append(part2.as_str());
                text.append(".");
                Evidence { subject: Option::Some(transaction.clone()), message: text }
            },
            RecoverabilityObstacle::NoModeledRetryDriver { input, delivery: Option::Some(DeliverySemantics::AtMostOnce) } => {
                let mut text = String::from_str("Completion is guaranteed, but subscription `");
                text.append(input.as_str());
                text.append("` declares `at_most_once` delivery: interrupted invocations are not redelivered.");
                Evidence { subject: Option::Some(input.clone()), message: text }
            },
            RecoverabilityObstacle::NoModeledRetryDriver { input, delivery: Option::Some(_) } => {
                let mut text = String::from_str("Completion is guaranteed, but subscription `");
                text.append(input.as_str());
                text.append("` declares no delivery fact that re-drives interrupted invocations.");
                Evidence { subject: Option::Some(input.clone()), message: text }
            },
            RecoverabilityObstacle::NoModeledRetryDriver { input, delivery: Option::None } => {
                let mut text = String::from_str("Completion is guaranteed, but request input `");
                text.append(input.as_str());
                text.append("` has no modeled caller declaring a `may_repeat` request effect, so nothing in the model re-drives interrupted invocations.");
                Evidence { subject: Option::Some(input.clone()), message: text }
            },
        }
    }
}

pub open spec fn note_evidence_subject(note: RecoverabilityNote) -> Option<Id> {
    match note {
        RecoverabilityNote::RetrySafetyUndeclared { input } => Option::Some(input),
    }
}

pub open spec fn note_evidence_text(note: RecoverabilityNote) -> Seq<char> {
    match note {
        RecoverabilityNote::RetrySafetyUndeclared { input } => "Completion is guaranteed by re-driving invocations of `"@ + input@ + "`, so repeated attempts are expected, but no idempotency requirement keyed from `"@ + input@ + "` declares them safe; recoverability establishes progress only."@,
    }
}

impl RecoverabilityNote {
    pub fn evidence(&self) -> (r: Evidence)
        ensures
            r.subject == note_evidence_subject(*self),
            r.message@ == note_evidence_text(*self),
    {
        match self {
            RecoverabilityNote::RetrySafetyUndeclared { input } => {
                let mut text = String::from_str("Completion is guaranteed by re-driving invocations of `");
                text.append(input.as_str());
                text.append("`, so repeated attempts are expected, but no idempotency requirement keyed from `");
                text.append(input.as_str());
                text.append("` declares them safe; recoverability establishes progress only.");
                Evidence { subject: Option::Some(input.clone()), message: text }
            },
        }
    }
}

} // verus!
