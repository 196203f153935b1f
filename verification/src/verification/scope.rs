//! Which semantic layers a proof consumed, and which layer an unproven
//! obligation waits on.

use vstd::prelude::*;

verus! {

/// Which semantic layers a successful proof consumed.
///
/// A `RuntimeDependent` proof holds of the declared runtime
/// realization and must be re-examined when that realization changes.
/// `L0Only` does not mean implementation-free: it identifies
/// dependency on semantic layers, not the absence of conformance
/// assumptions.
#[derive(Debug, Clone, Copy, PartialEq, Eq, Structural)]
pub enum ProofScope {
    /// No explicit L1 fact was required.
    L0Only,
    /// At least one L1 fact was necessary.
    RuntimeDependent,
}

/// The scope of a proof combining two arguments.
pub open spec fn scope_join(first: ProofScope, second: ProofScope) -> ProofScope {
    if first == ProofScope::L0Only && second == ProofScope::L0Only {
        ProofScope::L0Only
    } else {
        ProofScope::RuntimeDependent
    }
}

/// The scope of a proof combining the arguments of `scopes`, left to
/// right from `L0Only`.
pub open spec fn scopes_joined(scopes: Seq<ProofScope>) -> ProofScope
    decreases scopes.len(),
{
    if scopes.len() == 0 {
        ProofScope::L0Only
    } else {
        scope_join(scopes_joined(scopes.drop_last()), scopes.last())
    }
}

impl ProofScope {
    /// The scope of a proof combining two arguments: runtime-dependent
    /// if either leg was.
    pub fn join(self, other: Self) -> (r: Self)
        ensures
            r == scope_join(self, other),
    {
        match (self, other) {
            (ProofScope::L0Only, ProofScope::L0Only) => ProofScope::L0Only,
            _ => ProofScope::RuntimeDependent,
        }
    }

    /// The scope of a proof combining any number of arguments.
    pub fn joined(scopes: &Vec<ProofScope>) -> (r: Self)
        ensures
            r == scopes_joined(scopes@),
    {
        let mut scope = ProofScope::L0Only;
        let mut i: usize = 0;
        while i < scopes.len()
            invariant
                i <= scopes@.len(),
                scope == scopes_joined(scopes@.take(i as int)),
            decreases scopes@.len() - i,
        {
            proof {
                assert(scopes@.take(i + 1).drop_last() =~= scopes@.take(i as int));
            }
            scope = scope.join(scopes[i]);
            i += 1;
        }
        proof {
            assert(scopes@.take(scopes@.len() as int) =~= scopes@);
        }
        scope
    }

    /// The scope as the report spells it.
    pub fn text(self) -> (r: &'static str)
        ensures
            r@ == scope_text(self),
    {
        match self {
            ProofScope::L0Only => "l0_only",
            ProofScope::RuntimeDependent => "runtime_dependent",
        }
    }
}

pub open spec fn scope_text(scope: ProofScope) -> Seq<char> {
    match scope {
        ProofScope::L0Only => "l0_only"@,
        ProofScope::RuntimeDependent => "runtime_dependent"@,
    }
}

/// Joining scopes is commutative.
pub proof fn lemma_scope_join_commutative(first: ProofScope, second: ProofScope)
    ensures
        scope_join(first, second) == scope_join(second, first),
{
}

/// Joining scopes is associative.
pub proof fn lemma_scope_join_associative(first: ProofScope, second: ProofScope, third: ProofScope)
    ensures
        scope_join(scope_join(first, second), third) == scope_join(first, scope_join(second, third)),
{
}

/// Joining a scope with itself leaves it unchanged; `L0Only` is the
/// identity of the join and `RuntimeDependent` absorbs it.
pub proof fn lemma_scope_join_unit_and_absorption(scope: ProofScope)
    ensures
        scope_join(scope, scope) == scope,
        scope_join(ProofScope::L0Only, scope) == scope,
        scope_join(ProofScope::RuntimeDependent, scope) == ProofScope::RuntimeDependent,
{
}

/// A combined proof is runtime-dependent exactly when one of its
/// arguments is.
pub proof fn lemma_scopes_joined_runtime_iff_any(scopes: Seq<ProofScope>)
    ensures
        (scopes_joined(scopes) == ProofScope::RuntimeDependent) <==> exists|i: int|
            0 <= i < scopes.len() && scopes[i] == ProofScope::RuntimeDependent,
    decreases scopes.len(),
{
    if scopes.len() > 0 {
        lemma_scopes_joined_runtime_iff_any(scopes.drop_last());
        if scopes_joined(scopes.drop_last()) == ProofScope::RuntimeDependent {
            let i = choose|i: int|
                0 <= i < scopes.drop_last().len() && scopes.drop_last()[i]
                    == ProofScope::RuntimeDependent;
            assert(scopes[i] == ProofScope::RuntimeDependent);
        }
        if scopes.last() == ProofScope::RuntimeDependent {
            assert(scopes[scopes.len() - 1] == ProofScope::RuntimeDependent);
        }
        assert forall|i: int| 0 <= i < scopes.len() - 1 implies scopes.drop_last()[i] == scopes[i] by {}
    }
}

/// Combining the arguments of two proofs in one list gives the join
/// of the two combined scopes.
pub proof fn lemma_scopes_joined_concat(first: Seq<ProofScope>, second: Seq<ProofScope>)
    ensures
        scopes_joined(first + second) == scope_join(scopes_joined(first), scopes_joined(second)),
    decreases second.len(),
{
    if second.len() == 0 {
        assert(first + second =~= first);
    } else {
        lemma_scopes_joined_concat(first, second.drop_last());
        assert((first + second).drop_last() =~= first + second.drop_last());
    }
}

/// Which semantic layer holds the facts an unproven obligation is
/// waiting on: the dual of [`ProofScope`]. A routing hint, not a
/// verdict.
#[derive(Debug, Clone, Copy, PartialEq, Eq, Structural)]
pub enum RemedyLayer {
    /// At least one obstacle names an L0 fact: an L1 declaration alone
    /// cannot discharge the obligation.
    Application,
    /// Every obstacle names an L1 fact.
    Runtime,
}

/// The remedy for an obligation blocked by the obstacles whose layers
/// are `layers`: none without obstacles, `Runtime` when every one is a
/// runtime obstacle, `Application` otherwise.
pub open spec fn layers_joined(layers: Seq<RemedyLayer>) -> Option<RemedyLayer> {
    if layers.len() == 0 {
        Option::None
    } else if forall|i: int| 0 <= i < layers.len() ==> layers[i] == RemedyLayer::Runtime {
        Option::Some(RemedyLayer::Runtime)
    } else {
        Option::Some(RemedyLayer::Application)
    }
}

pub open spec fn remedy_text(layer: RemedyLayer) -> Seq<char> {
    match layer {
        RemedyLayer::Application => "application"@,
        RemedyLayer::Runtime => "runtime"@,
    }
}

impl RemedyLayer {
    /// The remedy for an obligation blocked by several obstacles.
    ///
    /// Obstacles are conjunctive, so a single application obstacle
    /// means topology work alone cannot finish, and the application
    /// fix is what to ask for first.
    pub fn joined(layers: &Vec<RemedyLayer>) -> (r: Option<RemedyLayer>)
        ensures
            r == layers_joined(layers@),
    {
        if layers.len() == 0 {
            return Option::None;
        }
        let mut i: usize = 0;
        while i < layers.len()
            invariant
                i <= layers@.len(),
                forall|k: int| 0 <= k < i ==> layers@[k] == RemedyLayer::Runtime,
            decreases layers@.len() - i,
        {
            match layers[i] {
                RemedyLayer::Application => return Option::Some(RemedyLayer::Application),
                RemedyLayer::Runtime => {},
            }
            i += 1;
        }
        Option::Some(RemedyLayer::Runtime)
    }

    /// The layer as the report spells it.
    pub fn text(self) -> (r: &'static str)
        ensures
            r@ == remedy_text(self),
    {
        match self {
            RemedyLayer::Application => "application",
            RemedyLayer::Runtime => "runtime",
        }
    }
}

} // verus!
