//! Verification: discharging declared requirements from declared
//! facts.

pub mod describe;
pub mod notes;
pub mod ordering;
pub mod paths;
pub mod recoverability;
pub mod result_replay;
pub mod scope;
pub mod replay;
pub mod idempotency;

use vstd::prelude::*;

use crate::diagnostic::{Diagnostic, Severity};
use crate::model::Id;

use self::idempotency::{idempotency_diagnostic_is, IdempotencyCheck};
use self::notes::{note_diagnostic_is, ModelNote};
use self::ordering::{ordering_diagnostic_is, OrderingCheck};
use self::recoverability::{
    is_note_diagnostic, recoverability_diagnostic_is, RecoverabilityCheck, RecoverabilityNote,
};
use self::result_replay::{result_replay_diagnostic_is, ResultReplayCheck};

verus! {

/// Verdicts for every requirement the model declares, in model order,
/// and the model-wide notes.
pub struct VerificationReport {
    pub ordering: Vec<OrderingCheck>,
    pub idempotency: Vec<IdempotencyCheck>,
    pub result_replay: Vec<ResultReplayCheck>,
    pub recoverability: Vec<RecoverabilityCheck>,
    /// Model-wide notes, raised as warnings.
    pub notes: Vec<ModelNote>,
}

/// The unproven checks among `checks`, in order.
pub open spec fn unproven_ordering(checks: Seq<OrderingCheck>) -> Seq<OrderingCheck>
    decreases checks.len(),
{
    if checks.len() == 0 {
        Seq::empty()
    } else if checks.last().verdict is Unproven {
        unproven_ordering(checks.drop_last()).push(checks.last())
    } else {
        unproven_ordering(checks.drop_last())
    }
}

/// Appends the diagnostic of every unproven check, in order.
fn push_ordering_diagnostics(out: &mut Vec<Diagnostic>, checks: &Vec<OrderingCheck>)
    ensures
        final(out)@.len() == old(out)@.len() + unproven_ordering(checks@).len(),
        forall|k: int| 0 <= k < old(out)@.len() ==> final(out)@[k] == old(out)@[k],
        forall|k: int|
            0 <= k < unproven_ordering(checks@).len() ==> ordering_diagnostic_is(
                #[trigger] final(out)@[old(out)@.len() + k],
                unproven_ordering(checks@)[k],
            ),
{
    let ghost start = out@;
    let mut i: usize = 0;
    while i < checks.len()
        invariant
            i <= checks@.len(),
            out@.len() == start.len() + unproven_ordering(checks@.take(i as int)).len(),
            forall|k: int| 0 <= k < start.len() ==> out@[k] == start[k],
            forall|k: int|
                0 <= k < unproven_ordering(checks@.take(i as int)).len() ==> ordering_diagnostic_is(
                    #[trigger] out@[start.len() + k],
                    unproven_ordering(checks@.take(i as int))[k],
                ),
        decreases checks@.len() - i,
    {
        proof {
            assert(checks@.take(i + 1).drop_last() =~= checks@.take(i as int));
        }
        match checks[i].diagnostic() {
            Option::Some(d) => {
                out.push(d);
            },
            Option::None => {},
        }
        i += 1;
    }
    proof {
        assert(checks@.take(checks@.len() as int) =~= checks@);
    }
}

/// The unproven checks among `checks`, in order.
pub open spec fn unproven_idempotency(checks: Seq<IdempotencyCheck>) -> Seq<IdempotencyCheck>
    decreases checks.len(),
{
    if checks.len() == 0 {
        Seq::empty()
    } else if checks.last().verdict is Unproven {
        unproven_idempotency(checks.drop_last()).push(checks.last())
    } else {
        unproven_idempotency(checks.drop_last())
    }
}

/// Appends the diagnostic of every unproven check, in order.
fn push_idempotency_diagnostics(out: &mut Vec<Diagnostic>, checks: &Vec<IdempotencyCheck>)
    ensures
        final(out)@.len() == old(out)@.len() + unproven_idempotency(checks@).len(),
        forall|k: int| 0 <= k < old(out)@.len() ==> final(out)@[k] == old(out)@[k],
        forall|k: int|
            0 <= k < unproven_idempotency(checks@).len() ==> idempotency_diagnostic_is(
                #[trigger] final(out)@[old(out)@.len() + k],
                unproven_idempotency(checks@)[k],
            ),
{
    let ghost start = out@;
    let mut i: usize = 0;
    while i < checks.len()
        invariant
            i <= checks@.len(),
            out@.len() == start.len() + unproven_idempotency(checks@.take(i as int)).len(),
            forall|k: int| 0 <= k < start.len() ==> out@[k] == start[k],
            forall|k: int|
                0 <= k < unproven_idempotency(checks@.take(i as int)).len() ==> idempotency_diagnostic_is(
                    #[trigger] out@[start.len() + k],
                    unproven_idempotency(checks@.take(i as int))[k],
                ),
        decreases checks@.len() - i,
    {
        proof {
            assert(checks@.take(i + 1).drop_last() =~= checks@.take(i as int));
        }
        match checks[i].diagnostic() {
            Option::Some(d) => {
                out.push(d);
            },
            Option::None => {},
        }
        i += 1;
    }
    proof {
        assert(checks@.take(checks@.len() as int) =~= checks@);
    }
}

/// The unproven checks among `checks`, in order.
pub open spec fn unproven_result_replay(checks: Seq<ResultReplayCheck>) -> Seq<ResultReplayCheck>
    decreases checks.len(),
{
    if checks.len() == 0 {
        Seq::empty()
    } else if checks.last().verdict is Unproven {
        unproven_result_replay(checks.drop_last()).push(checks.last())
    } else {
        unproven_result_replay(checks.drop_last())
    }
}

/// Appends the diagnostic of every unproven check, in order.
fn push_result_replay_diagnostics(out: &mut Vec<Diagnostic>, checks: &Vec<ResultReplayCheck>)
    ensures
        final(out)@.len() == old(out)@.len() + unproven_result_replay(checks@).len(),
        forall|k: int| 0 <= k < old(out)@.len() ==> final(out)@[k] == old(out)@[k],
        forall|k: int|
            0 <= k < unproven_result_replay(checks@).len() ==> result_replay_diagnostic_is(
                #[trigger] final(out)@[old(out)@.len() + k],
                unproven_result_replay(checks@)[k],
            ),
{
    let ghost start = out@;
    let mut i: usize = 0;
    while i < checks.len()
        invariant
            i <= checks@.len(),
            out@.len() == start.len() + unproven_result_replay(checks@.take(i as int)).len(),
            forall|k: int| 0 <= k < start.len() ==> out@[k] == start[k],
            forall|k: int|
                0 <= k < unproven_result_replay(checks@.take(i as int)).len() ==> result_replay_diagnostic_is(
                    #[trigger] out@[start.len() + k],
                    unproven_result_replay(checks@.take(i as int))[k],
                ),
        decreases checks@.len() - i,
    {
        proof {
            assert(checks@.take(i + 1).drop_last() =~= checks@.take(i as int));
        }
        match checks[i].diagnostic() {
            Option::Some(d) => {
                out.push(d);
            },
            Option::None => {},
        }
        i += 1;
    }
    proof {
        assert(checks@.take(checks@.len() as int) =~= checks@);
    }
}

/// The unproven checks among `checks`, in order.
pub open spec fn unproven_recoverability(checks: Seq<RecoverabilityCheck>) -> Seq<RecoverabilityCheck>
    decreases checks.len(),
{
    if checks.len() == 0 {
        Seq::empty()
    } else if checks.last().verdict is Unproven {
        unproven_recoverability(checks.drop_last()).push(checks.last())
    } else {
        unproven_recoverability(checks.drop_last())
    }
}

/// Appends the diagnostic of every unproven check, in order.
fn push_recoverability_diagnostics(out: &mut Vec<Diagnostic>, checks: &Vec<RecoverabilityCheck>)
    ensures
        final(out)@.len() == old(out)@.len() + unproven_recoverability(checks@).len(),
        forall|k: int| 0 <= k < old(out)@.len() ==> final(out)@[k] == old(out)@[k],
        forall|k: int|
            0 <= k < unproven_recoverability(checks@).len() ==> recoverability_diagnostic_is(
                #[trigger] final(out)@[old(out)@.len() + k],
                unproven_recoverability(checks@)[k],
            ),
{
    let ghost start = out@;
    let mut i: usize = 0;
    while i < checks.len()
        invariant
            i <= checks@.len(),
            out@.len() == start.len() + unproven_recoverability(checks@.take(i as int)).len(),
            forall|k: int| 0 <= k < start.len() ==> out@[k] == start[k],
            forall|k: int|
                0 <= k < unproven_recoverability(checks@.take(i as int)).len() ==> recoverability_diagnostic_is(
                    #[trigger] out@[start.len() + k],
                    unproven_recoverability(checks@.take(i as int))[k],
                ),
        decreases checks@.len() - i,
    {
        proof {
            assert(checks@.take(i + 1).drop_last() =~= checks@.take(i as int));
        }
        match checks[i].diagnostic() {
            Option::Some(d) => {
                out.push(d);
            },
            Option::None => {},
        }
        i += 1;
    }
    proof {
        assert(checks@.take(checks@.len() as int) =~= checks@);
    }
}


/// Every note of every recoverability check, with the check's
/// operation and requirement, in order.
pub open spec fn recoverability_notes(checks: Seq<RecoverabilityCheck>) -> Seq<
    (RecoverabilityNote, Id, usize),
>
    decreases checks.len(),
{
    if checks.len() == 0 {
        Seq::empty()
    } else {
        recoverability_notes(checks.drop_last()) + checks.last().notes@.map_values(
            |note: RecoverabilityNote| (note, checks.last().operation, checks.last().requirement),
        )
    }
}

/// Appends the warnings the recoverability checks' notes raise.
fn push_note_diagnostics(out: &mut Vec<Diagnostic>, checks: &Vec<RecoverabilityCheck>)
    ensures
        final(out)@.len() == old(out)@.len() + recoverability_notes(checks@).len(),
        forall|k: int| 0 <= k < old(out)@.len() ==> final(out)@[k] == old(out)@[k],
        forall|k: int|
            0 <= k < recoverability_notes(checks@).len() ==> is_note_diagnostic(
                #[trigger] final(out)@[old(out)@.len() + k],
                recoverability_notes(checks@)[k].0,
                recoverability_notes(checks@)[k].1,
                recoverability_notes(checks@)[k].2,
            ),
{
    let ghost start = out@;
    let mut i: usize = 0;
    while i < checks.len()
        invariant
            i <= checks@.len(),
            out@.len() == start.len() + recoverability_notes(checks@.take(i as int)).len(),
            forall|k: int| 0 <= k < start.len() ==> out@[k] == start[k],
            forall|k: int|
                0 <= k < recoverability_notes(checks@.take(i as int)).len() ==> is_note_diagnostic(
                    #[trigger] out@[start.len() + k],
                    recoverability_notes(checks@.take(i as int))[k].0,
                    recoverability_notes(checks@.take(i as int))[k].1,
                    recoverability_notes(checks@.take(i as int))[k].2,
                ),
        decreases checks@.len() - i,
    {
        proof {
            assert(checks@.take(i + 1).drop_last() =~= checks@.take(i as int));
        }
        let ghost before = out@;
        let mut more = checks[i].note_diagnostics();
        let ghost added = more@;
        out.append(&mut more);
        proof {
            let earlier = recoverability_notes(checks@.take(i as int));
            let now = recoverability_notes(checks@.take(i + 1));
            assert forall|k: int| 0 <= k < now.len() implies is_note_diagnostic(
                #[trigger] out@[start.len() + k],
                now[k].0,
                now[k].1,
                now[k].2,
            ) by {
                if k < earlier.len() {
                    assert(now[k] == earlier[k]);
                    assert(out@[start.len() + k] == before[start.len() + k]);
                } else {
                    let m = k - earlier.len();
                    assert(out@[start.len() + k] == added[m]);
                    assert(now[k] == (
                        checks@[i as int].notes@[m],
                        checks@[i as int].operation,
                        checks@[i as int].requirement,
                    ));
                }
            }
        }
        i += 1;
    }
    proof {
        assert(checks@.take(checks@.len() as int) =~= checks@);
    }
}

/// Appends the warning every model-wide note raises.
fn push_model_note_diagnostics(out: &mut Vec<Diagnostic>, notes: &Vec<ModelNote>)
    ensures
        final(out)@.len() == old(out)@.len() + notes@.len(),
        forall|k: int| 0 <= k < old(out)@.len() ==> final(out)@[k] == old(out)@[k],
        forall|k: int|
            0 <= k < notes@.len() ==> note_diagnostic_is(
                #[trigger] final(out)@[old(out)@.len() + k],
                notes@[k],
            ),
{
    let ghost start = out@;
    let mut i: usize = 0;
    while i < notes.len()
        invariant
            i <= notes@.len(),
            out@.len() == start.len() + i,
            forall|k: int| 0 <= k < start.len() ==> out@[k] == start[k],
            forall|k: int|
                0 <= k < i ==> note_diagnostic_is(#[trigger] out@[start.len() + k], notes@[k]),
        decreases notes@.len() - i,
    {
        out.push(notes[i].diagnostic());
        i += 1;
    }
}

/// Whether every check of every family is proven.
pub open spec fn report_all_proven(report: VerificationReport) -> bool {
    &&& forall|i: int|
        0 <= i < report.ordering@.len() ==> (#[trigger] report.ordering@[i]).verdict is Proven
    &&& forall|i: int|
        0 <= i < report.idempotency@.len() ==> (#[trigger] report.idempotency@[i]).verdict is Proven
    &&& forall|i: int|
        0 <= i < report.result_replay@.len() ==> (
        #[trigger] report.result_replay@[i]).verdict is Proven
    &&& forall|i: int|
        0 <= i < report.recoverability@.len() ==> (
        #[trigger] report.recoverability@[i]).verdict is Proven
}

/// The diagnostics of a report: one for each unproven check, family by
/// family, then the warnings the recoverability notes raise, then the
/// model-wide notes.
pub open spec fn report_diagnostics_are(report: VerificationReport, r: Seq<Diagnostic>) -> bool {
    let o = unproven_ordering(report.ordering@);
    let i = unproven_idempotency(report.idempotency@);
    let p = unproven_result_replay(report.result_replay@);
    let c = unproven_recoverability(report.recoverability@);
    let n = recoverability_notes(report.recoverability@);
    let m = report.notes@;
    &&& r.len() == o.len() + i.len() + p.len() + c.len() + n.len() + m.len()
    &&& forall|k: int| 0 <= k < o.len() ==> ordering_diagnostic_is(#[trigger] r[k], o[k])
    &&& forall|k: int|
        0 <= k < i.len() ==> idempotency_diagnostic_is(#[trigger] r[o.len() + k], i[k])
    &&& forall|k: int|
        0 <= k < p.len() ==> result_replay_diagnostic_is(#[trigger] r[o.len() + i.len() + k], p[k])
    &&& forall|k: int|
        0 <= k < c.len() ==> recoverability_diagnostic_is(
            #[trigger] r[o.len() + i.len() + p.len() + k],
            c[k],
        )
    &&& forall|k: int|
        0 <= k < n.len() ==> is_note_diagnostic(
            #[trigger] r[o.len() + i.len() + p.len() + c.len() + k],
            n[k].0,
            n[k].1,
            n[k].2,
        )
    &&& forall|k: int|
        0 <= k < m.len() ==> note_diagnostic_is(
            #[trigger] r[o.len() + i.len() + p.len() + c.len() + n.len() + k],
            m[k],
        )
}

impl VerificationReport {
    /// Diagnostics for the requirements the model does not establish,
    /// family by family, then the warnings the recoverability notes
    /// raise, then the model-wide notes.
    pub fn diagnostics(&self) -> (r: Vec<Diagnostic>)
        ensures
            report_diagnostics_are(*self, r@),
    {
        let mut out: Vec<Diagnostic> = Vec::new();
        push_ordering_diagnostics(&mut out, &self.ordering);
        let ghost a = out@;
        push_idempotency_diagnostics(&mut out, &self.idempotency);
        let ghost b = out@;
        push_result_replay_diagnostics(&mut out, &self.result_replay);
        let ghost c = out@;
        push_recoverability_diagnostics(&mut out, &self.recoverability);
        let ghost d = out@;
        push_note_diagnostics(&mut out, &self.recoverability);
        let ghost e = out@;
        push_model_note_diagnostics(&mut out, &self.notes);
        proof {
            let o = unproven_ordering(self.ordering@);
            let i = unproven_idempotency(self.idempotency@);
            let p = unproven_result_replay(self.result_replay@);
            let cc = unproven_recoverability(self.recoverability@);
            let n = recoverability_notes(self.recoverability@);
            assert forall|k: int| 0 <= k < o.len() implies ordering_diagnostic_is(
                #[trigger] out@[k],
                o[k],
            ) by {
                assert(out@[k] == e[k]);
                assert(e[k] == d[k]);
                assert(d[k] == c[k]);
                assert(c[k] == b[k]);
                assert(b[k] == a[k]);
                assert(a[0 + k] == a[k]);
            }
            assert forall|k: int| 0 <= k < i.len() implies idempotency_diagnostic_is(
                #[trigger] out@[o.len() + k],
                i[k],
            ) by {
                let x = o.len() + k;
                assert(out@[x] == e[x]);
                assert(e[x] == d[x]);
                assert(d[x] == c[x]);
                assert(c[x] == b[x]);
            }
            assert forall|k: int| 0 <= k < p.len() implies result_replay_diagnostic_is(
                #[trigger] out@[o.len() + i.len() + k],
                p[k],
            ) by {
                let x = o.len() + i.len() + k;
                assert(out@[x] == e[x]);
                assert(e[x] == d[x]);
                assert(d[x] == c[x]);
            }
            assert forall|k: int| 0 <= k < cc.len() implies recoverability_diagnostic_is(
                #[trigger] out@[o.len() + i.len() + p.len() + k],
                cc[k],
            ) by {
                let x = o.len() + i.len() + p.len() + k;
                assert(out@[x] == e[x]);
                assert(e[x] == d[x]);
            }
            assert forall|k: int| 0 <= k < n.len() implies is_note_diagnostic(
                #[trigger] out@[o.len() + i.len() + p.len() + cc.len() + k],
                n[k].0,
                n[k].1,
                n[k].2,
            ) by {
                let x = o.len() + i.len() + p.len() + cc.len() + k;
                assert(out@[x] == e[x]);
            }
        }
        out
    }

    /// Whether every declared requirement is proven.
    pub fn all_proven(&self) -> (r: bool)
        ensures
            r == report_all_proven(*self),
    {
        let mut i: usize = 0;
        while i < self.ordering.len()
            invariant
                i <= self.ordering@.len(),
                forall|k: int| 0 <= k < i ==> (#[trigger] self.ordering@[k]).verdict is Proven,
            decreases self.ordering@.len() - i,
        {
            match &self.ordering[i].verdict {
                ordering::OrderingVerdict::Unproven { .. } => return false,
                _ => {},
            }
            i += 1;
        }
        let mut i: usize = 0;
        while i < self.idempotency.len()
            invariant
                i <= self.idempotency@.len(),
                forall|k: int| 0 <= k < self.ordering@.len() ==> (
                #[trigger] self.ordering@[k]).verdict is Proven,
                forall|k: int| 0 <= k < i ==> (#[trigger] self.idempotency@[k]).verdict is Proven,
            decreases self.idempotency@.len() - i,
        {
            match &self.idempotency[i].verdict {
                idempotency::IdempotencyVerdict::Unproven { .. } => return false,
                _ => {},
            }
            i += 1;
        }
        let mut i: usize = 0;
        while i < self.result_replay.len()
            invariant
                i <= self.result_replay@.len(),
                forall|k: int| 0 <= k < self.ordering@.len() ==> (
                #[trigger] self.ordering@[k]).verdict is Proven,
                forall|k: int| 0 <= k < self.idempotency@.len() ==> (
                #[trigger] self.idempotency@[k]).verdict is Proven,
                forall|k: int| 0 <= k < i ==> (#[trigger] self.result_replay@[k]).verdict is Proven,
            decreases self.result_replay@.len() - i,
        {
            match &self.result_replay[i].verdict {
                result_replay::ResultReplayVerdict::Unproven { .. } => return false,
                _ => {},
            }
            i += 1;
        }
        let mut i: usize = 0;
        while i < self.recoverability.len()
            invariant
                i <= self.recoverability@.len(),
                forall|k: int| 0 <= k < self.ordering@.len() ==> (
                #[trigger] self.ordering@[k]).verdict is Proven,
                forall|k: int| 0 <= k < self.idempotency@.len() ==> (
                #[trigger] self.idempotency@[k]).verdict is Proven,
                forall|k: int| 0 <= k < self.result_replay@.len() ==> (
                #[trigger] self.result_replay@[k]).verdict is Proven,
                forall|k: int| 0 <= k < i ==> (#[trigger] self.recoverability@[k]).verdict
                    is Proven,
            decreases self.recoverability@.len() - i,
        {
            match &self.recoverability[i].verdict {
                recoverability::RecoverabilityVerdict::Unproven { .. } => return false,
                _ => {},
            }
            i += 1;
        }
        true
    }
}


proof fn lemma_unproven_ordering_empty(checks: Seq<OrderingCheck>)
    ensures
        (unproven_ordering(checks).len() == 0) <==> forall|i: int|
            0 <= i < checks.len() ==> (#[trigger] checks[i]).verdict is Proven,
    decreases checks.len(),
{
    if checks.len() > 0 {
        lemma_unproven_ordering_empty(checks.drop_last());
        if unproven_ordering(checks).len() == 0 {
            assert forall|i: int| 0 <= i < checks.len() implies (#[trigger] checks[i]).verdict
                is Proven by {
                if i < checks.len() - 1 {
                    assert(checks[i] == checks.drop_last()[i]);
                }
            }
        } else if checks.last().verdict is Proven {
            let i = choose|i: int|
                0 <= i < checks.drop_last().len() && !((#[trigger] checks.drop_last()[i]).verdict
                    is Proven);
            assert(checks[i] == checks.drop_last()[i]);
        }
    }
}

proof fn lemma_unproven_idempotency_empty(checks: Seq<IdempotencyCheck>)
    ensures
        (unproven_idempotency(checks).len() == 0) <==> forall|i: int|
            0 <= i < checks.len() ==> (#[trigger] checks[i]).verdict is Proven,
    decreases checks.len(),
{
    if checks.len() > 0 {
        lemma_unproven_idempotency_empty(checks.drop_last());
        if unproven_idempotency(checks).len() == 0 {
            assert forall|i: int| 0 <= i < checks.len() implies (#[trigger] checks[i]).verdict
                is Proven by {
                if i < checks.len() - 1 {
                    assert(checks[i] == checks.drop_last()[i]);
                }
            }
        } else if checks.last().verdict is Proven {
            let i = choose|i: int|
                0 <= i < checks.drop_last().len() && !((#[trigger] checks.drop_last()[i]).verdict
                    is Proven);
            assert(checks[i] == checks.drop_last()[i]);
        }
    }
}

proof fn lemma_unproven_result_replay_empty(checks: Seq<ResultReplayCheck>)
    ensures
        (unproven_result_replay(checks).len() == 0) <==> forall|i: int|
            0 <= i < checks.len() ==> (#[trigger] checks[i]).verdict is Proven,
    decreases checks.len(),
{
    if checks.len() > 0 {
        lemma_unproven_result_replay_empty(checks.drop_last());
        if unproven_result_replay(checks).len() == 0 {
            assert forall|i: int| 0 <= i < checks.len() implies (#[trigger] checks[i]).verdict
                is Proven by {
                if i < checks.len() - 1 {
                    assert(checks[i] == checks.drop_last()[i]);
                }
            }
        } else if checks.last().verdict is Proven {
            let i = choose|i: int|
                0 <= i < checks.drop_last().len() && !((#[trigger] checks.drop_last()[i]).verdict
                    is Proven);
            assert(checks[i] == checks.drop_last()[i]);
        }
    }
}

proof fn lemma_unproven_recoverability_empty(checks: Seq<RecoverabilityCheck>)
    ensures
        (unproven_recoverability(checks).len() == 0) <==> forall|i: int|
            0 <= i < checks.len() ==> (#[trigger] checks[i]).verdict is Proven,
    decreases checks.len(),
{
    if checks.len() > 0 {
        lemma_unproven_recoverability_empty(checks.drop_last());
        if unproven_recoverability(checks).len() == 0 {
            assert forall|i: int| 0 <= i < checks.len() implies (#[trigger] checks[i]).verdict
                is Proven by {
                if i < checks.len() - 1 {
                    assert(checks[i] == checks.drop_last()[i]);
                }
            }
        } else if checks.last().verdict is Proven {
            let i = choose|i: int|
                0 <= i < checks.drop_last().len() && !((#[trigger] checks.drop_last()[i]).verdict
                    is Proven);
            assert(checks[i] == checks.drop_last()[i]);
        }
    }
}

/// Every diagnostic of a report is a warning exactly when every
/// requirement is proven: a proven requirement raises at most a note
/// next to its verdict, and an unproven one always raises its own
/// diagnostic.
pub proof fn lemma_all_proven_iff_only_warnings(report: VerificationReport, diagnostics: Seq<Diagnostic>)
    requires
        report_diagnostics_are(report, diagnostics),
    ensures
        report_all_proven(report) <==> forall|k: int|
            0 <= k < diagnostics.len() ==> (#[trigger] diagnostics[k]).severity == Severity::Warning,
{
    let o = unproven_ordering(report.ordering@);
    let i = unproven_idempotency(report.idempotency@);
    let p = unproven_result_replay(report.result_replay@);
    let c = unproven_recoverability(report.recoverability@);
    let n = recoverability_notes(report.recoverability@);
    lemma_unproven_ordering_empty(report.ordering@);
    lemma_unproven_idempotency_empty(report.idempotency@);
    lemma_unproven_result_replay_empty(report.result_replay@);
    lemma_unproven_recoverability_empty(report.recoverability@);
    if report_all_proven(report) {
        assert forall|k: int| 0 <= k < diagnostics.len() implies (
        #[trigger] diagnostics[k]).severity == Severity::Warning by {
            let base = o.len() + i.len() + p.len() + c.len();
            if k < base + n.len() {
                assert(diagnostics[base + (k - base)] == diagnostics[k]);
            } else {
                assert(diagnostics[base + n.len() + (k - base - n.len())] == diagnostics[k]);
            }
        }
    } else if o.len() > 0 {
        assert(diagnostics[0].severity == Severity::Unknown);
    } else if i.len() > 0 {
        assert(diagnostics[o.len() + 0int].severity == Severity::Unknown);
    } else if p.len() > 0 {
        assert(diagnostics[o.len() + i.len() + 0int].severity == Severity::Unknown);
    } else {
        assert(diagnostics[o.len() + i.len() + p.len() + 0int].severity == Severity::Unknown);
    }
}

} // verus!
