//! What is definitely available at one program point, and how the
//! states of two predecessors combine at a join.

use vstd::prelude::*;

use crate::model::Id;

verus! {

/// A set of identifiers, by their text.
pub struct IdSet {
    pub items: Vec<Id>,
}

pub open spec fn id_set(items: Seq<Id>) -> Set<Seq<char>> {
    Set::new(|text: Seq<char>| exists|i: int| 0 <= i < items.len() && #[trigger] items[i]@ == text)
}

impl View for IdSet {
    type V = Set<Seq<char>>;

    open spec fn view(&self) -> Set<Seq<char>> {
        id_set(self.items@)
    }
}

impl IdSet {
    pub fn new() -> (r: IdSet)
        ensures
            r@ == Set::<Seq<char>>::empty(),
    {
        let r = IdSet { items: Vec::new() };
        proof {
            assert(r@ =~= Set::<Seq<char>>::empty());
        }
        r
    }

    pub fn contains(&self, id: &Id) -> (r: bool)
        ensures
            r == self@.contains(id@),
    {
        let mut i: usize = 0;
        while i < self.items.len()
            invariant
                i <= self.items@.len(),
                forall|k: int| 0 <= k < i ==> self.items@[k]@ != id@,
            decreases self.items@.len() - i,
        {
            if self.items[i] == *id {
                proof {
                    assert(self.items@[i as int]@ == id@);
                }
                return true;
            }
            i += 1;
        }
        false
    }

    pub fn insert(&mut self, id: Id)
        ensures
            final(self)@ == old(self)@.insert(id@),
    {
        let ghost before = self.items@;
        self.items.push(id);
        proof {
            assert forall|text: Seq<char>| self@.contains(text) <==> old(self)@.insert(id@).contains(
                text,
            ) by {
                if self@.contains(text) {
                    let i = choose|i: int| 0 <= i < self.items@.len() && #[trigger] self.items@[i]@
                        == text;
                    if i < before.len() {
                        assert(before[i]@ == text);
                    }
                }
                if old(self)@.contains(text) {
                    let i = choose|i: int| 0 <= i < before.len() && #[trigger] before[i]@ == text;
                    assert(self.items@[i]@ == text);
                }
                if text == id@ {
                    assert(self.items@[before.len() as int]@ == text);
                }
            }
            assert(self@ =~= old(self)@.insert(id@));
        }
    }

    pub fn remove(&mut self, id: &Id)
        ensures
            final(self)@ == old(self)@.remove(id@),
    {
        let mut kept: Vec<Id> = Vec::new();
        let mut i: usize = 0;
        while i < self.items.len()
            invariant
                i <= self.items@.len(),
                forall|text: Seq<char>|
                    id_set(kept@).contains(text) <==> (text != id@ && exists|k: int|
                        0 <= k < i && #[trigger] self.items@[k]@ == text),
            decreases self.items@.len() - i,
        {
            let ghost before = kept@;
            if self.items[i] != *id {
                kept.push(self.items[i].clone());
            }
            proof {
                assert forall|text: Seq<char>|
                    id_set(kept@).contains(text) <==> (text != id@ && exists|k: int|
                        0 <= k < i + 1 && #[trigger] self.items@[k]@ == text) by {
                    if id_set(kept@).contains(text) {
                        let j = choose|j: int| 0 <= j < kept@.len() && #[trigger] kept@[j]@ == text;
                        if j < before.len() {
                            assert(id_set(before).contains(text));
                        }
                    }
                    if text != id@ && exists|k: int|
                        0 <= k < i + 1 && #[trigger] self.items@[k]@ == text {
                        let k = choose|k: int| 0 <= k < i + 1 && #[trigger] self.items@[k]@ == text;
                        if k < i {
                            assert(id_set(before).contains(text));
                            let j = choose|j: int|
                                0 <= j < before.len() && #[trigger] before[j]@ == text;
                            assert(kept@[j]@ == text);
                        } else {
                            assert(kept@[kept@.len() - 1]@ == text);
                        }
                    }
                }
            }
            i += 1;
        }
        proof {
            assert(id_set(kept@) =~= old(self)@.remove(id@));
        }
        self.items = kept;
    }

    /// The identifiers both sets hold.
    pub fn intersect(&self, other: &IdSet) -> (r: IdSet)
        ensures
            r@ == self@.intersect(other@),
    {
        let mut both = IdSet::new();
        let mut i: usize = 0;
        while i < self.items.len()
            invariant
                i <= self.items@.len(),
                forall|text: Seq<char>|
                    both@.contains(text) <==> (other@.contains(text) && exists|k: int|
                        0 <= k < i && #[trigger] self.items@[k]@ == text),
            decreases self.items@.len() - i,
        {
            if other.contains(&self.items[i]) {
                both.insert(self.items[i].clone());
            }
            proof {
                assert forall|text: Seq<char>|
                    both@.contains(text) <==> (other@.contains(text) && exists|k: int|
                        0 <= k < i + 1 && #[trigger] self.items@[k]@ == text) by {
                    if other@.contains(text) && exists|k: int|
                        0 <= k < i + 1 && #[trigger] self.items@[k]@ == text {
                        let k = choose|k: int| 0 <= k < i + 1 && #[trigger] self.items@[k]@ == text;
                        if k < i {
                        } else {
                            assert(both@.contains(text));
                        }
                    }
                }
            }
            i += 1;
        }
        proof {
            assert(both@ =~= self@.intersect(other@));
        }
        both
    }

    pub fn copy(&self) -> (r: IdSet)
        ensures
            r@ == self@,
    {
        let mut items: Vec<Id> = Vec::new();
        let mut i: usize = 0;
        while i < self.items.len()
            invariant
                i <= self.items@.len(),
                items@.len() == i,
                forall|k: int| 0 <= k < i ==> #[trigger] items@[k] == self.items@[k],
            decreases self.items@.len() - i,
        {
            items.push(self.items[i].clone());
            i += 1;
        }
        let r = IdSet { items };
        proof {
            assert(r.items@ =~= self.items@);
        }
        r
    }
}

/// What is definitely available at one program point: the transaction
/// artifacts every path reaching it has established or recovered, the
/// result bindings every path has bound, the result variants the
/// enclosing match arms have selected, and the async handles every
/// path has launched.
pub struct Availability {
    pub artifacts: IdSet,
    pub bound: IdSet,
    pub ok: IdSet,
    pub err: IdSet,
    pub handles: IdSet,
}

pub struct AvailabilityView {
    pub artifacts: Set<Seq<char>>,
    pub bound: Set<Seq<char>>,
    pub ok: Set<Seq<char>>,
    pub err: Set<Seq<char>>,
    pub handles: Set<Seq<char>>,
}

impl View for Availability {
    type V = AvailabilityView;

    open spec fn view(&self) -> AvailabilityView {
        AvailabilityView {
            artifacts: self.artifacts@,
            bound: self.bound@,
            ok: self.ok@,
            err: self.err@,
            handles: self.handles@,
        }
    }
}

/// The state at program entry: nothing is available.
pub open spec fn nothing_available() -> AvailabilityView {
    AvailabilityView {
        artifacts: Set::empty(),
        bound: Set::empty(),
        ok: Set::empty(),
        err: Set::empty(),
        handles: Set::empty(),
    }
}

/// The state at a join: what both predecessors guarantee.
pub open spec fn meet_view(first: AvailabilityView, second: AvailabilityView) -> AvailabilityView {
    AvailabilityView {
        artifacts: first.artifacts.intersect(second.artifacts),
        bound: first.bound.intersect(second.bound),
        ok: first.ok.intersect(second.ok),
        err: first.err.intersect(second.err),
        handles: first.handles.intersect(second.handles),
    }
}

/// The state after a join of two predecessors, either of which may
/// have terminated: a terminated predecessor imposes no constraint.
pub open spec fn join_view(first: Option<AvailabilityView>, second: Option<AvailabilityView>) -> Option<
    AvailabilityView,
> {
    match (first, second) {
        (Option::Some(a), Option::Some(b)) => Option::Some(meet_view(a, b)),
        (Option::Some(a), Option::None) => Option::Some(a),
        (Option::None, Option::Some(b)) => Option::Some(b),
        (Option::None, Option::None) => Option::None,
    }
}

pub open spec fn fallthrough_view(state: Option<Availability>) -> Option<AvailabilityView> {
    match state {
        Option::Some(s) => Option::Some(s@),
        Option::None => Option::None,
    }
}

impl Availability {
    pub fn new() -> (r: Availability)
        ensures
            r@ == nothing_available(),
    {
        Availability {
            artifacts: IdSet::new(),
            bound: IdSet::new(),
            ok: IdSet::new(),
            err: IdSet::new(),
            handles: IdSet::new(),
        }
    }

    /// The state at a join: what both predecessors guarantee.
    pub fn meet(&self, other: &Self) -> (r: Self)
        ensures
            r@ == meet_view(self@, other@),
    {
        Availability {
            artifacts: self.artifacts.intersect(&other.artifacts),
            bound: self.bound.intersect(&other.bound),
            ok: self.ok.intersect(&other.ok),
            err: self.err.intersect(&other.err),
            handles: self.handles.intersect(&other.handles),
        }
    }

    pub fn copy(&self) -> (r: Self)
        ensures
            r@ == self@,
    {
        Availability {
            artifacts: self.artifacts.copy(),
            bound: self.bound.copy(),
            ok: self.ok.copy(),
            err: self.err.copy(),
            handles: self.handles.copy(),
        }
    }
}

/// The state after a join of two predecessors' fallthroughs.
pub fn join(first: Option<Availability>, second: Option<Availability>) -> (r: Option<Availability>)
    ensures
        fallthrough_view(r) == join_view(fallthrough_view(first), fallthrough_view(second)),
{
    match (first, second) {
        (Option::Some(first), Option::Some(second)) => Option::Some(first.meet(&second)),
        (Option::Some(state), Option::None) => Option::Some(state),
        (Option::None, Option::Some(state)) => Option::Some(state),
        (Option::None, Option::None) => Option::None,
    }
}

/// A join keeps only what both predecessors guarantee, whichever comes
/// first: the meet is commutative, associative and idempotent, and
/// below each of its arguments.
pub proof fn lemma_meet_is_intersection(
    first: AvailabilityView,
    second: AvailabilityView,
    third: AvailabilityView,
)
    ensures
        meet_view(first, second) == meet_view(second, first),
        meet_view(meet_view(first, second), third) == meet_view(first, meet_view(second, third)),
        meet_view(first, first) == first,
        meet_view(first, second).artifacts.subset_of(first.artifacts),
        meet_view(first, second).bound.subset_of(first.bound),
        meet_view(first, second).ok.subset_of(first.ok),
        meet_view(first, second).err.subset_of(first.err),
        meet_view(first, second).handles.subset_of(first.handles),
{
    assert(first.artifacts.intersect(second.artifacts) =~= second.artifacts.intersect(first.artifacts));
    assert(first.artifacts.intersect(second.artifacts).intersect(third.artifacts) =~= first.artifacts.intersect(
        second.artifacts.intersect(third.artifacts),
    ));
    assert(first.artifacts.intersect(first.artifacts) =~= first.artifacts);
    assert(first.bound.intersect(second.bound) =~= second.bound.intersect(first.bound));
    assert(first.bound.intersect(second.bound).intersect(third.bound) =~= first.bound.intersect(
        second.bound.intersect(third.bound),
    ));
    assert(first.bound.intersect(first.bound) =~= first.bound);
    assert(first.ok.intersect(second.ok) =~= second.ok.intersect(first.ok));
    assert(first.ok.intersect(second.ok).intersect(third.ok) =~= first.ok.intersect(
        second.ok.intersect(third.ok),
    ));
    assert(first.ok.intersect(first.ok) =~= first.ok);
    assert(first.err.intersect(second.err) =~= second.err.intersect(first.err));
    assert(first.err.intersect(second.err).intersect(third.err) =~= first.err.intersect(
        second.err.intersect(third.err),
    ));
    assert(first.err.intersect(first.err) =~= first.err);
    assert(first.handles.intersect(second.handles) =~= second.handles.intersect(first.handles));
    assert(first.handles.intersect(second.handles).intersect(third.handles) =~= first.handles.intersect(
        second.handles.intersect(third.handles),
    ));
    assert(first.handles.intersect(first.handles) =~= first.handles);
}

/// A terminated predecessor imposes no constraint on a join, and the
/// order of the predecessors does not matter.
pub proof fn lemma_join_terminated_is_neutral(
    first: Option<AvailabilityView>,
    second: Option<AvailabilityView>,
)
    ensures
        join_view(Option::None, first) == first,
        join_view(first, Option::None) == first,
        join_view(first, second) == join_view(second, first),
        join_view(first, second) is None <==> (first is None && second is None),
{
    if let (Option::Some(a), Option::Some(b)) = (first, second) {
        lemma_meet_is_intersection(a, b, a);
    }
}

} // verus!
