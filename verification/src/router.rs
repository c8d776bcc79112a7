//! Routing of events to the agents registered for their type.
use vstd::prelude::*;
use std::any::TypeId;

verus! {

/// Declares the standard library's type identifier to the verifier; values
/// are carried and compared, never inspected.
#[verifier::external_type_specification]
#[verifier::external_body]
pub struct ExTypeId(TypeId);

/// Calls `std::any::TypeId::of::<T>()`. Nothing is stated of the identifier
/// it returns.
#[verifier::external_body]
fn type_id_of<T: ?Sized + 'static>() -> TypeId {
    TypeId::of::<T>()
}

/// Calls `TypeId`'s `==`. The documentation of `TypeId` says two identifiers
/// are equal exactly when they identify the same type, so the result is
/// stated to be the equality of the two values.
#[verifier::external_body]
fn same_type_id(a: &TypeId, b: &TypeId) -> (r: bool)
    ensures
        r == (*a == *b),
{
    *a == *b
}

/// The agents registered for `key` in an association list, or none.
pub open spec fn agents_for<A>(routes: Seq<(TypeId, Vec<A>)>, key: TypeId) -> Seq<A>
    decreases routes.len(),
{
    if routes.len() == 0 {
        Seq::empty()
    } else if routes.last().0 == key {
        routes.last().1@
    } else {
        agents_for(routes.drop_last(), key)
    }
}

/// Maps event types to the agents that handle them, in registration order.
pub struct Router<A> {
    routes: Vec<(TypeId, Vec<A>)>,
}

/// No event type appears twice in the association list.
pub open spec fn keys_unique<A>(routes: Seq<(TypeId, Vec<A>)>) -> bool {
    forall|i: int, j: int|
        0 <= i < routes.len() && 0 <= j < routes.len() && i != j ==> routes[i].0 != routes[j].0
}

proof fn lemma_agents_for_at<A>(routes: Seq<(TypeId, Vec<A>)>, i: int)
    requires
        keys_unique(routes),
        0 <= i < routes.len(),
    ensures
        agents_for(routes, routes[i].0) == routes[i].1@,
    decreases routes.len(),
{
    if i != routes.len() - 1 {
        lemma_agents_for_at(routes.drop_last(), i);
    }
}

proof fn lemma_agents_for_absent<A>(routes: Seq<(TypeId, Vec<A>)>, key: TypeId)
    requires
        forall|i: int| 0 <= i < routes.len() ==> routes[i].0 != key,
    ensures
        agents_for(routes, key) == Seq::<A>::empty(),
    decreases routes.len(),
{
    if routes.len() > 0 {
        lemma_agents_for_absent(routes.drop_last(), key);
    }
}

impl<A> Router<A> {
    /// The agents registered for each event type; types with none map to
    /// the empty sequence.
    pub closed spec fn agents(&self, key: TypeId) -> Seq<A> {
        agents_for(self.routes@, key)
    }

    /// How many event types have at least one agent.
    pub closed spec fn route_count(&self) -> nat {
        self.routes@.len()
    }

    /// The routes are keyed by distinct event types, each with an agent.
    pub closed spec fn wf(&self) -> bool {
        &&& keys_unique(self.routes@)
        &&& forall|i: int| 0 <= i < self.routes@.len() ==> self.routes@[i].1@.len() > 0
    }

    /// An empty router.
    pub fn new() -> (r: Router<A>)
        ensures
            r.wf(),
            r.route_count() == 0,
            forall|k: TypeId| r.agents(k) == Seq::<A>::empty(),
    {
        Router { routes: Vec::new() }
    }

    /// The number of event types that have routes.
    pub fn route_len(&self) -> (n: usize)
        ensures
            n == self.route_count(),
    {
        self.routes.len()
    }

    /// Registers `agent` for events whose type identifier is `type_id`,
    /// after the agents already registered for it.
    pub fn add_route_for(&mut self, type_id: TypeId, agent: A)
        requires
            old(self).wf(),
        ensures
            final(self).wf(),
            final(self).agents(type_id) == old(self).agents(type_id).push(agent),
            forall|k: TypeId| k != type_id ==> final(self).agents(k) == old(self).agents(k),
            final(self).route_count() == old(self).route_count() + (if old(self).agents(
                type_id,
            ).len() == 0 {
                1int
            } else {
                0int
            }),
    {
        let ghost before = self.routes@;
        let mut i: usize = 0;
        let mut found = false;
        while i < self.routes.len()
            invariant_except_break
                !found,
            invariant
                i <= self.routes@.len(),
                self.routes@ == before,
                forall|k: int| 0 <= k < i ==> before[k].0 != type_id,
            ensures
                i <= self.routes@.len(),
                self.routes@ == before,
                found ==> i < before.len() && before[i as int].0 == type_id,
                !found ==> forall|k: int| 0 <= k < before.len() ==> before[k].0 != type_id,
            decreases self.routes@.len() - i,
        {
            if same_type_id(&self.routes[i].0, &type_id) {
                found = true;
                break;
            }
            i = i + 1;
        }
        if found {
            proof {
                lemma_agents_for_at(before, i as int);
            }
            let mut entry = self.routes.remove(i);
            entry.1.push(agent);
            self.routes.insert(i, entry);
            proof {
                let after = self.routes@;
                assert(after == before.update(i as int, after[i as int]));
                assert forall|a: int, b: int|
                    0 <= a < after.len() && 0 <= b < after.len() && a != b implies after[a].0
                    != after[b].0 by {
                    assert(before[a].0 == after[a].0);
                    assert(before[b].0 == after[b].0);
                }
                lemma_agents_for_at(after, i as int);
                assert forall|k: TypeId| k != type_id implies agents_for(after, k) == agents_for(
                    before,
                    k,
                ) by {
                    lemma_agents_for_other(before, i as int, after[i as int], k);
                }
            }
        } else {
            proof {
                lemma_agents_for_absent(before, type_id);
            }
            let mut agents = Vec::new();
            agents.push(agent);
            self.routes.push((type_id, agents));
            proof {
                let after = self.routes@;
                assert(after.drop_last() == before);
                assert forall|k: TypeId| k != type_id implies agents_for(after, k) == agents_for(
                    before,
                    k,
                ) by {}
            }
        }
    }

    /// Registers `agent` for events of type `T`, after the agents already
    /// registered for it.
    pub fn add_route<T: ?Sized + 'static>(&mut self, agent: A)
        requires
            old(self).wf(),
        ensures
            final(self).wf(),
            exists|key: TypeId|
                {
                    &&& final(self).agents(key) == old(self).agents(key).push(agent)
                    &&& forall|k: TypeId| k != key ==> final(self).agents(k) == old(self).agents(k)
                },
    {
        let type_id = type_id_of::<T>();
        self.add_route_for(type_id, agent);
    }

    /// The agents registered for `type_id`, in registration order; none when
    /// no agent handles that type.
    pub fn get_agents(&self, type_id: TypeId) -> (v: Vec<A>) where A: Clone
        requires
            self.wf(),
        ensures
            v@.len() == self.agents(type_id).len(),
            forall|i: int| 0 <= i < v@.len() ==> cloned(self.agents(type_id)[i], v@[i]),
    {
        let mut i: usize = 0;
        while i < self.routes.len()
            invariant
                i <= self.routes@.len(),
                keys_unique(self.routes@),
                forall|k: int| 0 <= k < i ==> self.routes@[k].0 != type_id,
            decreases self.routes@.len() - i,
        {
            if same_type_id(&self.routes[i].0, &type_id) {
                proof {
                    lemma_agents_for_at(self.routes@, i as int);
                }
                return self.routes[i].1.clone();
            }
            i = i + 1;
        }
        proof {
            lemma_agents_for_absent(self.routes@, type_id);
        }
        Vec::new()
    }
}

proof fn lemma_agents_for_other<A>(
    routes: Seq<(TypeId, Vec<A>)>,
    i: int,
    entry: (TypeId, Vec<A>),
    k: TypeId,
)
    requires
        0 <= i < routes.len(),
        entry.0 == routes[i].0,
        k != entry.0,
    ensures
        agents_for(routes.update(i, entry), k) == agents_for(routes, k),
    decreases routes.len(),
{
    if i == routes.len() - 1 {
        assert(routes.update(i, entry).drop_last() == routes.drop_last());
    } else {
        assert(routes.update(i, entry).drop_last() == routes.drop_last().update(i, entry));
        lemma_agents_for_other(routes.drop_last(), i, entry, k);
    }
}


impl<A> Default for Router<A> {
    /// An empty router.
    fn default() -> (r: Router<A>)
        ensures
            r.wf(),
            r.route_count() == 0,
            forall|k: TypeId| r.agents(k) == Seq::<A>::empty(),
    {
        Router::new()
    }
}
} // verus!
