//! The agent registry: an explicit arena of agents and food items keyed by
//! stable identities, with deferred removal drained at a commit point at
//! the end of each tick, so no mid-tick iteration is ever invalidated.
use vstd::prelude::*;

use crate::components::{
    agent_wf, food_wf, policy_wf, timer_wf, Agent, Food, HerbSpawnConfig, OffspringEnergyPolicy,
    Timer,
};
use crate::POP_LIMIT;

verus! {

/// Mathematical model of the simulation state.
pub struct WorldView {
    pub agents: Seq<Agent>,
    pub foods: Seq<Food>,
    pub next_id: u64,
    pub timer: Timer,
    pub herb_policy: OffspringEnergyPolicy,
    pub carn_policy: OffspringEnergyPolicy,
}

/// The simulation state: the arena of agents and food items, the identity
/// counter, the food spawner and the reproduction configuration.
pub struct World {
    pub agents: Vec<Agent>,
    pub foods: Vec<Food>,
    pub next_id: u64,
    pub spawner: HerbSpawnConfig,
    pub herb_policy: OffspringEnergyPolicy,
    pub carn_policy: OffspringEnergyPolicy,
}

impl View for World {
    type V = WorldView;

    open spec fn view(&self) -> WorldView {
        WorldView {
            agents: self.agents@,
            foods: self.foods@,
            next_id: self.next_id,
            timer: self.spawner.timer,
            herb_policy: self.herb_policy,
            carn_policy: self.carn_policy,
        }
    }
}

/// Identities are unique across agents and food items, and always below
/// the counter, so a fresh identity never collides.
pub open spec fn ids_wf(v: WorldView) -> bool {
    &&& forall|i: int| 0 <= i < v.agents.len() ==> (#[trigger] v.agents[i].id) < v.next_id
    &&& forall|i: int| 0 <= i < v.foods.len() ==> (#[trigger] v.foods[i].id) < v.next_id
    &&& forall|i: int, j: int|
        0 <= i < v.agents.len() && 0 <= j < v.agents.len() && i != j ==> (#[trigger] v.agents[i].id)
            != (#[trigger] v.agents[j].id)
    &&& forall|i: int, j: int|
        0 <= i < v.foods.len() && 0 <= j < v.foods.len() && i != j ==> (#[trigger] v.foods[i].id)
            != (#[trigger] v.foods[j].id)
    &&& forall|i: int, j: int|
        0 <= i < v.agents.len() && 0 <= j < v.foods.len() ==> (#[trigger] v.agents[i].id) != (
        #[trigger] v.foods[j].id)
}

/// Well-formedness of the whole world; established at initialization and
/// preserved by every tick phase. In particular every agent's energy never
/// exceeds its maximum.
pub open spec fn wf(v: WorldView) -> bool {
    &&& v.agents.len() <= POP_LIMIT
    &&& v.foods.len() <= POP_LIMIT
    &&& forall|i: int| 0 <= i < v.agents.len() ==> agent_wf(#[trigger] v.agents[i])
    &&& forall|i: int| 0 <= i < v.foods.len() ==> food_wf(#[trigger] v.foods[i])
    &&& timer_wf(v.timer)
    &&& policy_wf(v.herb_policy)
    &&& policy_wf(v.carn_policy)
    &&& ids_wf(v)
}

/// The administrative state a phase does not touch.
pub open spec fn same_admin(a: WorldView, b: WorldView) -> bool {
    &&& a.next_id == b.next_id
    &&& a.timer == b.timer
    &&& a.herb_policy == b.herb_policy
    &&& a.carn_policy == b.carn_policy
}

/// Deferred removal of an agent identity: the mark every query skips.
pub open spec fn mark_agent_removed(s: Seq<Agent>, id: u64) -> Seq<Agent> {
    s.map(|i: int, a: Agent| if a.id == id { Agent { alive: false, ..a } } else { a })
}

/// Deferred removal of a food identity.
pub open spec fn mark_food_removed(f: Seq<Food>, id: u64) -> Seq<Food> {
    f.map(|i: int, fd: Food| if fd.id == id { Food { alive: false, ..fd } } else { fd })
}

/// Law: removal is idempotent. Removing the same entity identity twice in
/// one tick leaves the registries exactly as removing it once does; the
/// second attempt simply finds nothing left to remove.
pub proof fn lemma_removal_idempotent(s: Seq<Agent>, f: Seq<Food>, id: u64)
    ensures
        mark_agent_removed(mark_agent_removed(s, id), id) == mark_agent_removed(s, id),
        mark_food_removed(mark_food_removed(f, id), id) == mark_food_removed(f, id),
{
    assert(mark_agent_removed(mark_agent_removed(s, id), id) =~= mark_agent_removed(s, id));
    assert(mark_food_removed(mark_food_removed(f, id), id) =~= mark_food_removed(f, id));
}

/// The agents that survive the tick commit, in registry order.
pub open spec fn live_agents(s: Seq<Agent>) -> Seq<Agent>
    decreases s.len(),
{
    if s.len() == 0 {
        Seq::empty()
    } else {
        let rest = live_agents(s.drop_last());
        if s.last().alive {
            rest.push(s.last())
        } else {
            rest
        }
    }
}

/// The food items that survive the tick commit, in registry order.
pub open spec fn live_foods(f: Seq<Food>) -> Seq<Food>
    decreases f.len(),
{
    if f.len() == 0 {
        Seq::empty()
    } else {
        let rest = live_foods(f.drop_last());
        if f.last().alive {
            rest.push(f.last())
        } else {
            rest
        }
    }
}

/// Every survivor of the commit was already in the arena, alive.
pub proof fn lemma_live_agents_props(s: Seq<Agent>)
    ensures
        live_agents(s).len() <= s.len(),
        forall|j: int|
            0 <= j < live_agents(s).len() ==> (#[trigger] live_agents(s)[j]).alive && exists|k: int|
                0 <= k < s.len() && live_agents(s)[j] == s[k],
    decreases s.len(),
{
    if s.len() > 0 {
        lemma_live_agents_props(s.drop_last());
        assert forall|j: int| 0 <= j < live_agents(s).len() implies (#[trigger] live_agents(
            s,
        )[j]).alive && exists|k: int| 0 <= k < s.len() && live_agents(s)[j] == s[k] by {
            let rest = live_agents(s.drop_last());
            if j < rest.len() {
                assert(live_agents(s)[j] == rest[j]);
                let k = choose|k: int| 0 <= k < s.drop_last().len() && rest[j] == s.drop_last()[k];
                assert(s.drop_last()[k] == s[k]);
                assert(0 <= k < s.len() && live_agents(s)[j] == s[k]);
            } else {
                assert(live_agents(s)[j] == s.last());
                assert(live_agents(s)[j] == s[s.len() - 1]);
            }
        }
    }
}

/// See `lemma_live_agents_props`.
pub proof fn lemma_live_foods_props(f: Seq<Food>)
    ensures
        live_foods(f).len() <= f.len(),
        forall|j: int|
            0 <= j < live_foods(f).len() ==> (#[trigger] live_foods(f)[j]).alive && exists|k: int|
                0 <= k < f.len() && live_foods(f)[j] == f[k],
    decreases f.len(),
{
    if f.len() > 0 {
        lemma_live_foods_props(f.drop_last());
        assert forall|j: int| 0 <= j < live_foods(f).len() implies (#[trigger] live_foods(
            f,
        )[j]).alive && exists|k: int| 0 <= k < f.len() && live_foods(f)[j] == f[k] by {
            let rest = live_foods(f.drop_last());
            if j < rest.len() {
                assert(live_foods(f)[j] == rest[j]);
                let k = choose|k: int| 0 <= k < f.drop_last().len() && rest[j] == f.drop_last()[k];
                assert(f.drop_last()[k] == f[k]);
                assert(0 <= k < f.len() && live_foods(f)[j] == f[k]);
            } else {
                assert(live_foods(f)[j] == f[f.len() - 1]);
            }
        }
    }
}

/// Survivors keep pairwise distinct identities.
pub proof fn lemma_live_agents_distinct(s: Seq<Agent>)
    requires
        forall|k1: int, k2: int|
            0 <= k1 < s.len() && 0 <= k2 < s.len() && k1 != k2 ==> (#[trigger] s[k1].id) != (
            #[trigger] s[k2].id),
    ensures
        forall|j1: int, j2: int|
            0 <= j1 < live_agents(s).len() && 0 <= j2 < live_agents(s).len() && j1 != j2 ==> (
            #[trigger] live_agents(s)[j1].id) != (#[trigger] live_agents(s)[j2].id),
    decreases s.len(),
{
    if s.len() > 0 {
        lemma_live_agents_distinct(s.drop_last());
        lemma_live_agents_props(s.drop_last());
        let rest = live_agents(s.drop_last());
        assert forall|j1: int, j2: int|
            0 <= j1 < live_agents(s).len() && 0 <= j2 < live_agents(s).len() && j1
                != j2 implies (#[trigger] live_agents(s)[j1].id) != (#[trigger] live_agents(
            s,
        )[j2].id) by {
            if j1 < rest.len() && j2 < rest.len() {
            } else if j1 < rest.len() {
                let k = choose|k: int|
                    0 <= k < s.drop_last().len() && rest[j1] == s.drop_last()[k];
                assert(live_agents(s)[j2] == s[s.len() - 1]);
                assert(s[k].id != s[s.len() - 1].id);
            } else {
                let k = choose|k: int|
                    0 <= k < s.drop_last().len() && rest[j2] == s.drop_last()[k];
                assert(live_agents(s)[j1] == s[s.len() - 1]);
                assert(s[k].id != s[s.len() - 1].id);
            }
        }
    }
}

/// See `lemma_live_agents_distinct`.
pub proof fn lemma_live_foods_distinct(f: Seq<Food>)
    requires
        forall|k1: int, k2: int|
            0 <= k1 < f.len() && 0 <= k2 < f.len() && k1 != k2 ==> (#[trigger] f[k1].id) != (
            #[trigger] f[k2].id),
    ensures
        forall|j1: int, j2: int|
            0 <= j1 < live_foods(f).len() && 0 <= j2 < live_foods(f).len() && j1 != j2 ==> (
            #[trigger] live_foods(f)[j1].id) != (#[trigger] live_foods(f)[j2].id),
    decreases f.len(),
{
    if f.len() > 0 {
        lemma_live_foods_distinct(f.drop_last());
        lemma_live_foods_props(f.drop_last());
        let rest = live_foods(f.drop_last());
        assert forall|j1: int, j2: int|
            0 <= j1 < live_foods(f).len() && 0 <= j2 < live_foods(f).len() && j1
                != j2 implies (#[trigger] live_foods(f)[j1].id) != (#[trigger] live_foods(
            f,
        )[j2].id) by {
            if j1 < rest.len() && j2 < rest.len() {
            } else if j1 < rest.len() {
                let k = choose|k: int|
                    0 <= k < f.drop_last().len() && rest[j1] == f.drop_last()[k];
                assert(live_foods(f)[j2] == f[f.len() - 1]);
                assert(f[k].id != f[f.len() - 1].id);
            } else {
                let k = choose|k: int|
                    0 <= k < f.drop_last().len() && rest[j2] == f.drop_last()[k];
                assert(live_foods(f)[j1] == f[f.len() - 1]);
                assert(f[k].id != f[f.len() - 1].id);
            }
        }
    }
}

impl World {
    /// Deferred removal: mark every entity carrying this identity dead. It
    /// disappears from queries at once and leaves the arena at the tick
    /// commit; removing an absent or already-removed identity finds
    /// nothing to do.
    pub fn remove_entity(&mut self, id: u64)
        requires
            wf(old(self)@),
        ensures
            wf(final(self)@),
            final(self)@.agents == mark_agent_removed(old(self)@.agents, id),
            final(self)@.foods == mark_food_removed(old(self)@.foods, id),
            same_admin(final(self)@, old(self)@),
    {
        let ghost s0 = self.agents@;
        let ghost f0 = self.foods@;
        let n = self.agents.len();
        let mut i: usize = 0;
        while i < n
            invariant
                n == self.agents.len(),
                i <= n,
                self.foods@ == f0,
                self.next_id == old(self).next_id,
                self.spawner == old(self).spawner,
                self.herb_policy == old(self).herb_policy,
                self.carn_policy == old(self).carn_policy,
                s0.len() == n,
                forall|j: int|
                    0 <= j < i ==> #[trigger] self.agents@[j] == (if s0[j].id == id {
                        Agent { alive: false, ..s0[j] }
                    } else {
                        s0[j]
                    }),
                forall|j: int| i <= j < n ==> #[trigger] self.agents@[j] == s0[j],
            decreases n - i,
        {
            if self.agents[i].id == id {
                let mut a = self.agents[i];
                a.alive = false;
                self.agents.set(i, a);
            }
            i = i + 1;
        }
        let m = self.foods.len();
        let mut j: usize = 0;
        while j < m
            invariant
                m == self.foods.len(),
                j <= m,
                self.agents@ == mark_agent_removed(s0, id) || (self.agents@.len() == s0.len()
                    && forall|k: int|
                    0 <= k < s0.len() ==> #[trigger] self.agents@[k] == (if s0[k].id == id {
                        Agent { alive: false, ..s0[k] }
                    } else {
                        s0[k]
                    })),
                self.next_id == old(self).next_id,
                self.spawner == old(self).spawner,
                self.herb_policy == old(self).herb_policy,
                self.carn_policy == old(self).carn_policy,
                f0.len() == m,
                forall|k: int|
                    0 <= k < j ==> #[trigger] self.foods@[k] == (if f0[k].id == id {
                        Food { alive: false, ..f0[k] }
                    } else {
                        f0[k]
                    }),
                forall|k: int| j <= k < m ==> #[trigger] self.foods@[k] == f0[k],
            decreases m - j,
        {
            if self.foods[j].id == id {
                let mut fd = self.foods[j];
                fd.alive = false;
                self.foods.set(j, fd);
            }
            j = j + 1;
        }
        proof {
            assert(self.agents@ =~= mark_agent_removed(s0, id));
            assert(self.foods@ =~= mark_food_removed(f0, id));
        }
    }

    /// The tick commit: drain the deferred-removal marks, keeping live
    /// entities in registry order. Identities are never reused.
    pub fn commit_removals(&mut self)
        requires
            wf(old(self)@),
        ensures
            wf(final(self)@),
            final(self)@.agents == live_agents(old(self)@.agents),
            final(self)@.foods == live_foods(old(self)@.foods),
            same_admin(final(self)@, old(self)@),
    {
        let ghost s0 = self.agents@;
        let ghost f0 = self.foods@;
        let n = self.agents.len();
        let mut out: Vec<Agent> = Vec::new();
        let mut i: usize = 0;
        while i < n
            invariant
                n == self.agents.len(),
                i <= n,
                self.agents@ == s0,
                out@ == live_agents(s0.take(i as int)),
            decreases n - i,
        {
            proof {
                assert(s0.take(i + 1 as int).drop_last() =~= s0.take(i as int));
                assert(s0.take(i + 1 as int).last() == s0[i as int]);
            }
            if self.agents[i].alive {
                out.push(self.agents[i]);
            }
            i = i + 1;
        }
        proof {
            assert(s0.take(n as int) =~= s0);
        }
        self.agents = out;
        let m = self.foods.len();
        let mut outf: Vec<Food> = Vec::new();
        let mut j: usize = 0;
        while j < m
            invariant
                m == self.foods.len(),
                j <= m,
                self.foods@ == f0,
                outf@ == live_foods(f0.take(j as int)),
            decreases m - j,
        {
            proof {
                assert(f0.take(j + 1 as int).drop_last() =~= f0.take(j as int));
                assert(f0.take(j + 1 as int).last() == f0[j as int]);
            }
            if self.foods[j].alive {
                outf.push(self.foods[j]);
            }
            j = j + 1;
        }
        proof {
            assert(f0.take(m as int) =~= f0);
        }
        self.foods = outf;
        proof {
            lemma_live_agents_props(s0);
            lemma_live_foods_props(f0);
            lemma_live_agents_distinct(s0);
            lemma_live_foods_distinct(f0);
            assert forall|i1: int, j1: int|
                0 <= i1 < self@.agents.len() && 0 <= j1 < self@.foods.len() implies (
            #[trigger] self@.agents[i1].id) != (#[trigger] self@.foods[j1].id) by {
                let ka = choose|k: int| 0 <= k < s0.len() && live_agents(s0)[i1] == s0[k];
                let kf = choose|k: int| 0 <= k < f0.len() && live_foods(f0)[j1] == f0[k];
                assert(s0[ka].id != f0[kf].id);
            }
        }
    }
}

} // verus!
