//! The lifecycle systems — energy drain, reproduction, the food spawner,
//! world initialization — and the per-tick entry point `advance`, which
//! runs every phase in one explicit, documented order.
use vstd::prelude::*;

use crate::components::{
    agent_wf, energy_wf, food_wf, policy_wf, spec_tick, timer_wf, Agent, Bird, Carnivore,
    Energy, Food, Herb, HerbSpawnConfig, Herbivore, OffspringEnergyPolicy, Species, Timer,
};
use crate::movement::{
    contain_all, dies_all, feed_upto, flee_all, flock_all, hunt_upto, move_all,
};
use crate::registry::{live_agents, live_foods, same_admin, wf, World, WorldView};
use crate::rng::random_in_range;
use crate::vec2::{clamp_i, normalize_or_zero, scale_milli, spec_norm, spec_scale, within, V2};
use crate::{
    BASE_SPEED, DT_LIMIT, ENERGY_FLOOR, HERB_SPAWN_PERIOD_MS, HERB_VALUE, MAX_ENERGY,
    OFFSPRING_BACK, OFFSPRING_ENERGY, POP_LIMIT, POS_LIMIT, START_ENERGY, HALF_X, HALF_Y,
};

verus! {

/// One agent after the energy drain: every living bird pays elapsed time
/// times one hundredth of its speed, floored only at the numeric rail far
/// below the death threshold.
pub open spec fn drain_one(a: Agent, dt: int) -> Agent {
    if !a.alive {
        a
    } else {
        let d = a.bird.speed * dt / 100;
        let nv = if a.energy.value - d < ENERGY_FLOOR {
            ENERGY_FLOOR as int
        } else {
            a.energy.value - d
        };
        Agent { energy: Energy { value: nv as i64, ..a.energy }, ..a }
    }
}

/// The whole registry after the energy drain.
pub open spec fn drain_all(s: Seq<Agent>, dt: int) -> Seq<Agent> {
    Seq::new(s.len(), |i: int| drain_one(s[i], dt))
}

/// Drain every living bird's energy: faster movement burns faster.
pub fn energy_drain(w: &mut World, dt_ms: i64)
    requires
        wf(old(w)@),
        0 <= dt_ms <= DT_LIMIT,
    ensures
        wf(final(w)@),
        final(w)@.agents == drain_all(old(w)@.agents, dt_ms as int),
        final(w)@.foods == old(w)@.foods,
        same_admin(final(w)@, old(w)@),
{
    let ghost s0 = w.agents@;
    let n = w.agents.len();
    let mut i: usize = 0;
    while i < n
        invariant
            wf(old(w)@),
            0 <= dt_ms <= DT_LIMIT,
            n == w.agents.len(),
            i <= n,
            s0 == old(w)@.agents,
            s0.len() == n,
            w.foods@ == old(w)@.foods,
            w.next_id == old(w).next_id,
            w.spawner == old(w).spawner,
            w.herb_policy == old(w).herb_policy,
            w.carn_policy == old(w).carn_policy,
            forall|j: int| 0 <= j < i ==> #[trigger] w.agents@[j] == drain_one(s0[j], dt_ms as int),
            forall|j: int| i <= j < n ==> #[trigger] w.agents@[j] == s0[j],
        decreases n - i,
    {
        let a = w.agents[i];
        proof {
            assert(agent_wf(s0[i as int]));
        }
        if a.alive {
            proof {
                assert(0 <= a.bird.speed * dt_ms <= 1_000_000_000_000) by (nonlinear_arith)
                    requires
                        0 <= a.bird.speed <= 1_000_000,
                        0 <= dt_ms <= 1_000_000,
                ;
            }
            let d = a.bird.speed * dt_ms / 100;
            let t = a.energy.value - d;
            let nv = if t < ENERGY_FLOOR {
                ENERGY_FLOOR
            } else {
                t
            };
            let mut a2 = a;
            a2.energy.value = nv;
            w.agents.set(i, a2);
            proof {
                assert(w.agents@[i as int] == drain_one(s0[i as int], dt_ms as int));
            }
        }
        i = i + 1;
    }
    proof {
        assert(w.agents@ =~= drain_all(s0, dt_ms as int));
        assert forall|j: int| 0 <= j < w.agents@.len() implies agent_wf(
            #[trigger] w.agents@[j],
        ) by {
            assert(w.agents@[j] == drain_one(s0[j], dt_ms as int));
            assert(agent_wf(s0[j]));
        }
    }
}

/// Mark every bird with energy at or below zero for removal.
pub fn zero_energy_dies(w: &mut World)
    requires
        wf(old(w)@),
    ensures
        wf(final(w)@),
        final(w)@.agents == dies_all(old(w)@.agents),
        final(w)@.foods == old(w)@.foods,
        same_admin(final(w)@, old(w)@),
{
    crate::movement::zero_energy_dies(w)
}

/// Whether agent `i` reproduces this step: a living agent of the species
/// at or above the reproduction threshold of four fifths of its maximum,
/// with room in the arena and a fresh identity available.
pub open spec fn repro_cond(st: (Seq<Agent>, u64), i: int, sp: Species) -> bool {
    let a = st.0[i];
    &&& a.alive
    &&& a.species == sp
    &&& a.energy.value * 5 >= a.energy.max * 4
    &&& st.0.len() < POP_LIMIT
    &&& st.1 < u64::MAX
}

/// The newborn's starting energy under a policy, given the parent's
/// post-halving energy and capacity.
pub open spec fn offspring_energy(policy: OffspringEnergyPolicy, half: int, max: int) -> int {
    match policy {
        OffspringEnergyPolicy::Fixed(v) => if v > max {
            max
        } else {
            v as int
        },
        OffspringEnergyPolicy::InheritHalved => half,
    }
}

/// One step of the reproduction pass: a qualifying parent halves its own
/// energy and a newborn appears just behind it, inheriting the parent's
/// species, heading and steering parameters, with energy set by the
/// configured policy.
pub open spec fn repro_one(
    st: (Seq<Agent>, u64),
    i: int,
    sp: Species,
    policy: OffspringEnergyPolicy,
) -> (Seq<Agent>, u64) {
    if !repro_cond(st, i, sp) {
        st
    } else {
        let a = st.0[i];
        let half = a.energy.value / 2;
        let parent2 = Agent { energy: Energy { value: half as i64, ..a.energy }, ..a };
        let back = spec_scale(OFFSPRING_BACK as int, spec_norm(a.heading));
        let child = Agent {
            id: st.1,
            alive: true,
            pos: V2 {
                x: clamp_i(a.pos.x - back.x, POS_LIMIT as int) as i64,
                y: clamp_i(a.pos.y - back.y, POS_LIMIT as int) as i64,
            },
            heading: a.heading,
            species: a.species,
            bird: a.bird,
            energy: Energy {
                value: offspring_energy(policy, half as int, a.energy.max as int) as i64,
                max: a.energy.max,
            },
        };
        (st.0.update(i, parent2).push(child), (st.1 + 1) as u64)
    }
}

/// The reproduction pass over the first `k` agents, in registry order;
/// newborns are appended and do not act until the next tick.
pub open spec fn repro_upto(
    s: Seq<Agent>,
    nid: u64,
    k: int,
    sp: Species,
    policy: OffspringEnergyPolicy,
) -> (Seq<Agent>, u64)
    decreases k,
{
    if k <= 0 {
        (s, nid)
    } else {
        repro_one(repro_upto(s, nid, k - 1, sp, policy), k - 1, sp, policy)
    }
}

/// Law: reproduction conserves and copies. A qualifying parent's energy
/// is exactly halved (rounded down), and the one newborn carries the
/// parent's species, heading and physical parameters — speed, rotation
/// speed, vision radius — with its energy set by the configured policy
/// and never above its capacity.
pub proof fn lemma_reproduction_conservation(
    s: Seq<Agent>,
    nid: u64,
    i: int,
    sp: Species,
    policy: OffspringEnergyPolicy,
)
    requires
        0 <= i < s.len(),
        repro_cond((s, nid), i, sp),
        energy_wf(s[i].energy),
        policy_wf(policy),
    ensures
        ({
            let r = repro_one((s, nid), i, sp, policy);
            let child = r.0.last();
            &&& r.0.len() == s.len() + 1
            &&& r.1 == nid + 1
            &&& r.0[i] == (Agent {
                energy: Energy { value: (s[i].energy.value / 2) as i64, ..s[i].energy },
                ..s[i]
            })
            &&& forall|j: int| 0 <= j < s.len() && j != i ==> r.0[j] == s[j]
            &&& child.id == nid && child.alive
            &&& child.species == s[i].species
            &&& child.bird == s[i].bird
            &&& child.heading == s[i].heading
            &&& child.energy.max == s[i].energy.max
            &&& child.energy.value == offspring_energy(
                policy,
                s[i].energy.value / 2,
                s[i].energy.max as int,
            )
            &&& child.energy.value <= child.energy.max
        }),
{
    let a = s[i];
    assert(a.energy.value >= 0) by (nonlinear_arith)
        requires
            a.energy.value * 5 >= a.energy.max * 4,
            a.energy.max >= 0,
    ;
    assert(0 <= a.energy.value / 2 <= a.energy.max);
}

fn spawn_offspring(w: &mut World, sp: Species, policy: OffspringEnergyPolicy)
    requires
        wf(old(w)@),
        policy_wf(policy),
    ensures
        wf(final(w)@),
        final(w)@.agents == repro_upto(
            old(w)@.agents,
            old(w)@.next_id,
            old(w)@.agents.len() as int,
            sp,
            policy,
        ).0,
        final(w)@.next_id == repro_upto(
            old(w)@.agents,
            old(w)@.next_id,
            old(w)@.agents.len() as int,
            sp,
            policy,
        ).1,
        final(w)@.foods == old(w)@.foods,
        final(w)@.timer == old(w)@.timer,
        final(w)@.herb_policy == old(w)@.herb_policy,
        final(w)@.carn_policy == old(w)@.carn_policy,
{
    let ghost s0 = w.agents@;
    let ghost nid0 = w.next_id;
    let n = w.agents.len();
    let mut i: usize = 0;
    while i < n
        invariant
            wf(old(w)@),
            policy_wf(policy),
            n == s0.len(),
            i <= n,
            s0 == old(w)@.agents,
            nid0 == old(w)@.next_id,
            w.foods@ == old(w)@.foods,
            w.spawner == old(w).spawner,
            w.herb_policy == old(w).herb_policy,
            w.carn_policy == old(w).carn_policy,
            w.agents@ == repro_upto(s0, nid0, i as int, sp, policy).0,
            w.next_id == repro_upto(s0, nid0, i as int, sp, policy).1,
            n <= w.agents@.len(),
            w.agents@.len() <= POP_LIMIT,
            nid0 <= w.next_id,
            forall|j: int| 0 <= j < w.agents@.len() ==> agent_wf(#[trigger] w.agents@[j]),
            forall|j: int| 0 <= j < w.agents@.len() ==> (#[trigger] w.agents@[j].id) < w.next_id,
            forall|j: int, k: int|
                0 <= j < w.agents@.len() && 0 <= k < w.agents@.len() && j != k ==> (
                #[trigger] w.agents@[j].id) != (#[trigger] w.agents@[k].id),
            forall|j: int, k: int|
                0 <= j < w.agents@.len() && 0 <= k < w.foods@.len() ==> (
                #[trigger] w.agents@[j].id) != (#[trigger] w.foods@[k].id),
        decreases n - i,
    {
        let a = w.agents[i];
        if a.alive && a.species == sp && a.energy.value * 5 >= a.energy.max * 4 && w.agents.len()
            < POP_LIMIT && w.next_id < u64::MAX {
            proof {
                assert(a.energy.value >= 0) by (nonlinear_arith)
                    requires
                        a.energy.value * 5 >= a.energy.max * 4,
                        a.energy.max >= 0,
                ;
            }
            let half = a.energy.value / 2;
            let mut parent2 = a;
            parent2.energy.value = half;
            w.agents.set(i, parent2);
            let hn = normalize_or_zero(a.heading);
            let back = scale_milli(OFFSPRING_BACK, hn);
            let tx = a.pos.x - back.x;
            let ty = a.pos.y - back.y;
            let px = if tx > POS_LIMIT {
                POS_LIMIT
            } else if tx < -POS_LIMIT {
                -POS_LIMIT
            } else {
                tx
            };
            let py = if ty > POS_LIMIT {
                POS_LIMIT
            } else if ty < -POS_LIMIT {
                -POS_LIMIT
            } else {
                ty
            };
            let off_e = match policy {
                OffspringEnergyPolicy::Fixed(v) => if v > a.energy.max {
                    a.energy.max
                } else {
                    v
                },
                OffspringEnergyPolicy::InheritHalved => half,
            };
            let child = Agent {
                id: w.next_id,
                alive: true,
                pos: V2 { x: px, y: py },
                heading: a.heading,
                species: a.species,
                bird: a.bird,
                energy: Energy { value: off_e, max: a.energy.max },
            };
            w.agents.push(child);
            w.next_id = w.next_id + 1;
        }
        i = i + 1;
    }
}

/// Each qualifying herbivore halves its energy and spawns one offspring
/// just behind it, under the herbivore offspring-energy policy.
pub fn spawn_herbivore_offspring(w: &mut World)
    requires
        wf(old(w)@),
    ensures
        wf(final(w)@),
        final(w)@.agents == repro_upto(
            old(w)@.agents,
            old(w)@.next_id,
            old(w)@.agents.len() as int,
            Species::Herbivore,
            old(w)@.herb_policy,
        ).0,
        final(w)@.next_id == repro_upto(
            old(w)@.agents,
            old(w)@.next_id,
            old(w)@.agents.len() as int,
            Species::Herbivore,
            old(w)@.herb_policy,
        ).1,
        final(w)@.foods == old(w)@.foods,
        final(w)@.timer == old(w)@.timer,
        final(w)@.herb_policy == old(w)@.herb_policy,
        final(w)@.carn_policy == old(w)@.carn_policy,
{
    let policy = w.herb_policy;
    spawn_offspring(w, Species::Herbivore, policy)
}

/// Each qualifying carnivore halves its energy and spawns one offspring
/// just behind it, under the carnivore offspring-energy policy.
pub fn spawn_carnivore_offspring(w: &mut World)
    requires
        wf(old(w)@),
    ensures
        wf(final(w)@),
        final(w)@.agents == repro_upto(
            old(w)@.agents,
            old(w)@.next_id,
            old(w)@.agents.len() as int,
            Species::Carnivore,
            old(w)@.carn_policy,
        ).0,
        final(w)@.next_id == repro_upto(
            old(w)@.agents,
            old(w)@.next_id,
            old(w)@.agents.len() as int,
            Species::Carnivore,
            old(w)@.carn_policy,
        ).1,
        final(w)@.foods == old(w)@.foods,
        final(w)@.timer == old(w)@.timer,
        final(w)@.herb_policy == old(w)@.herb_policy,
        final(w)@.carn_policy == old(w)@.carn_policy,
{
    let policy = w.carn_policy;
    spawn_offspring(w, Species::Carnivore, policy)
}

/// The food spawner's initial state: a repeating one-second timer.
pub fn setup_herb_spawner() -> (c: HerbSpawnConfig)
    ensures
        c.timer == (Timer { elapsed_ms: 0, period_ms: HERB_SPAWN_PERIOD_MS }),
        timer_wf(c.timer),
{
    HerbSpawnConfig { timer: Timer { elapsed_ms: 0, period_ms: HERB_SPAWN_PERIOD_MS } }
}

/// Whether the arena can take one more food item.
pub open spec fn can_spawn_food(v: WorldView) -> bool {
    v.foods.len() < POP_LIMIT && v.next_id < u64::MAX
}

/// What is known of a freshly spawned food item: fresh identity, alive,
/// the configured nutritional value, placed within world bounds. Its
/// exact position is random.
pub open spec fn valid_new_food(fd: Food, nid: u64) -> bool {
    &&& fd.id == nid
    &&& fd.alive
    &&& fd.herb.value == HERB_VALUE
    &&& -HALF_X <= fd.pos.x < HALF_X
    &&& -HALF_Y <= fd.pos.y < HALF_Y
}

/// Tick the spawn timer; each period crossing fires exactly once and
/// places one food item of the configured value at a random position
/// within world bounds.
pub fn spawn_herbs(w: &mut World, dt_ms: i64)
    requires
        wf(old(w)@),
        0 <= dt_ms <= DT_LIMIT,
    ensures
        wf(final(w)@),
        final(w)@.agents == old(w)@.agents,
        final(w)@.timer == spec_tick(old(w)@.timer, dt_ms as int).0,
        final(w)@.herb_policy == old(w)@.herb_policy,
        final(w)@.carn_policy == old(w)@.carn_policy,
        spec_tick(old(w)@.timer, dt_ms as int).1 && can_spawn_food(old(w)@) ==> ({
            &&& final(w)@.foods.len() == old(w)@.foods.len() + 1
            &&& final(w)@.foods.drop_last() == old(w)@.foods
            &&& valid_new_food(final(w)@.foods.last(), old(w)@.next_id)
            &&& final(w)@.next_id == old(w)@.next_id + 1
        }),
        !(spec_tick(old(w)@.timer, dt_ms as int).1 && can_spawn_food(old(w)@)) ==> ({
            &&& final(w)@.foods == old(w)@.foods
            &&& final(w)@.next_id == old(w)@.next_id
        }),
{
    let fired = w.spawner.timer.tick(dt_ms);
    if fired && w.foods.len() < POP_LIMIT && w.next_id < u64::MAX {
        let x = random_in_range(-HALF_X, HALF_X);
        let y = random_in_range(-HALF_Y, HALF_Y);
        let fd = Food {
            id: w.next_id,
            alive: true,
            pos: V2 { x, y },
            herb: Herb { value: HERB_VALUE },
        };
        w.foods.push(fd);
        w.next_id = w.next_id + 1;
        proof {
            assert(w.foods@.drop_last() =~= old(w)@.foods);
        }
    }
}

/// One agent at tick start: the desired-direction accumulator is cleared,
/// to be rebuilt from this tick's world state alone.
pub open spec fn reset_one(a: Agent) -> Agent {
    if a.alive {
        Agent { bird: Bird { desired_direction: V2::zero_spec(), ..a.bird }, ..a }
    } else {
        a
    }
}

/// The whole registry at tick start.
pub open spec fn reset_all(s: Seq<Agent>) -> Seq<Agent> {
    Seq::new(s.len(), |i: int| reset_one(s[i]))
}

/// Start a tick: clear every living bird's desired-direction accumulator,
/// so steering is derived fresh from the current world state.
pub fn begin_tick(w: &mut World)
    requires
        wf(old(w)@),
    ensures
        wf(final(w)@),
        final(w)@.agents == reset_all(old(w)@.agents),
        final(w)@.foods == old(w)@.foods,
        same_admin(final(w)@, old(w)@),
{
    let ghost s0 = w.agents@;
    let n = w.agents.len();
    let mut i: usize = 0;
    while i < n
        invariant
            wf(old(w)@),
            n == w.agents.len(),
            i <= n,
            s0 == old(w)@.agents,
            s0.len() == n,
            w.foods@ == old(w)@.foods,
            w.next_id == old(w).next_id,
            w.spawner == old(w).spawner,
            w.herb_policy == old(w).herb_policy,
            w.carn_policy == old(w).carn_policy,
            forall|j: int| 0 <= j < i ==> #[trigger] w.agents@[j] == reset_one(s0[j]),
            forall|j: int| i <= j < n ==> #[trigger] w.agents@[j] == s0[j],
        decreases n - i,
    {
        let a = w.agents[i];
        proof {
            assert(agent_wf(s0[i as int]));
        }
        if a.alive {
            let mut a2 = a;
            a2.bird.desired_direction = V2::zero();
            w.agents.set(i, a2);
        }
        i = i + 1;
    }
    proof {
        assert(w.agents@ =~= reset_all(s0));
        assert forall|j: int| 0 <= j < w.agents@.len() implies agent_wf(
            #[trigger] w.agents@[j],
        ) by {
            assert(w.agents@[j] == reset_one(s0[j]));
            assert(agent_wf(s0[j]));
        }
    }
}

/// The deterministic part of one tick, before the food spawner's random
/// placement and the removal commit: the phase pipeline in its documented
/// order — fresh desired directions, flocking, foraging, flight, pursuit,
/// containment, forward integration, herbivore then carnivore
/// reproduction, energy drain, death marking, and the timer step.
pub open spec fn advance_pre_spawn(v: WorldView, dt: int) -> WorldView {
    let s1 = reset_all(v.agents);
    let s2 = flock_all(s1);
    let st3 = feed_upto(s2, v.foods, s2.len() as int);
    let s4 = flee_all(st3.0);
    let s5 = hunt_upto(s4, s4.len() as int);
    let s6 = contain_all(s5);
    let s7 = move_all(s6, dt);
    let st8 = repro_upto(s7, v.next_id, s7.len() as int, Species::Herbivore, v.herb_policy);
    let st9 = repro_upto(st8.0, st8.1, st8.0.len() as int, Species::Carnivore, v.carn_policy);
    let s10 = drain_all(st9.0, dt);
    let s11 = dies_all(s10);
    WorldView {
        agents: s11,
        foods: st3.1,
        next_id: st9.1,
        timer: spec_tick(v.timer, dt).0,
        herb_policy: v.herb_policy,
        carn_policy: v.carn_policy,
    }
}

/// Whether the food spawner, were it to fire this tick, has room for one
/// more item when its turn in the pipeline comes.
pub open spec fn advance_spawn_room(v: WorldView, dt: int) -> bool {
    let pre = advance_pre_spawn(v, dt);
    pre.foods.len() < POP_LIMIT && pre.next_id < u64::MAX
}

/// One full simulation tick of `dt_ms` milliseconds: the explicit phase
/// pipeline, in this order and no other — desired directions cleared,
/// flocking, foraging, flight, pursuit, containment, forward integration,
/// herbivore reproduction, carnivore reproduction, energy drain, death
/// marking, the food spawner, and finally the commit that drains deferred
/// removals. Steering phases read the snapshot the earlier phases left;
/// removal marks issued mid-tick never invalidate iteration. After any
/// tick every agent's energy is at or below its maximum.
pub fn advance(w: &mut World, dt_ms: i64)
    requires
        wf(old(w)@),
        0 <= dt_ms <= DT_LIMIT,
    ensures
        wf(final(w)@),
        forall|i: int|
            0 <= i < final(w)@.agents.len() ==> (#[trigger] final(w)@.agents[i]).energy.value
                <= final(w)@.agents[i].energy.max,
        final(w)@.agents == live_agents(advance_pre_spawn(old(w)@, dt_ms as int).agents),
        final(w)@.timer == advance_pre_spawn(old(w)@, dt_ms as int).timer,
        final(w)@.herb_policy == old(w)@.herb_policy,
        final(w)@.carn_policy == old(w)@.carn_policy,
        spec_tick(old(w)@.timer, dt_ms as int).1 && advance_spawn_room(old(w)@, dt_ms as int)
            ==> ({
            let pre = advance_pre_spawn(old(w)@, dt_ms as int);
            &&& final(w)@.next_id == pre.next_id + 1
            &&& exists|fd: Food|
                valid_new_food(fd, pre.next_id) && final(w)@.foods == live_foods(
                    pre.foods.push(fd),
                )
        }),
        !(spec_tick(old(w)@.timer, dt_ms as int).1 && advance_spawn_room(old(w)@, dt_ms as int))
            ==> ({
            let pre = advance_pre_spawn(old(w)@, dt_ms as int);
            &&& final(w)@.next_id == pre.next_id
            &&& final(w)@.foods == live_foods(pre.foods)
        }),
{
    let ghost v0 = w@;
    begin_tick(w);
    crate::movement::herbivore_flock_movement(w);
    crate::movement::herbivore_feed(w);
    crate::movement::herbivore_flee(w);
    crate::movement::carnivore_movement(w);
    crate::movement::keep_birds_in_bounds(w);
    crate::movement::move_birds_forward(w, dt_ms);
    spawn_herbivore_offspring(w);
    spawn_carnivore_offspring(w);
    energy_drain(w, dt_ms);
    zero_energy_dies(w);
    let ghost v_pre_spawn = w@;
    proof {
        assert(v_pre_spawn.agents == advance_pre_spawn(v0, dt_ms as int).agents);
        assert(v_pre_spawn.foods == advance_pre_spawn(v0, dt_ms as int).foods);
        assert(v_pre_spawn.next_id == advance_pre_spawn(v0, dt_ms as int).next_id);
        assert(v_pre_spawn.timer == v0.timer);
    }
    spawn_herbs(w, dt_ms);
    let ghost fired = spec_tick(v0.timer, dt_ms as int).1;
    let ghost room = can_spawn_food(v_pre_spawn);
    let ghost fd_spawned = if w.foods@.len() > 0 {
        w.foods@.last()
    } else {
        w.foods@[0]
    };
    proof {
        if fired && room {
            assert(w.foods@ =~= v_pre_spawn.foods.push(fd_spawned));
        }
    }
    w.commit_removals();
    proof {
        let pre = advance_pre_spawn(v0, dt_ms as int);
        if fired && room {
            assert(valid_new_food(fd_spawned, pre.next_id) && w@.foods == live_foods(
                pre.foods.push(fd_spawned),
            ));
        }
    }
}

/// A living agent as world initialization places a herbivore: base
/// parameters, starting energy, a random heading (also its initial
/// desired direction) and a random position within bounds.
pub open spec fn is_start_herbivore(a: Agent) -> bool {
    &&& a.alive
    &&& a.species == Species::Herbivore
    &&& a.bird.speed == BASE_SPEED
    &&& a.bird.rotation_speed == crate::HERB_ROT_SPEED
    &&& a.bird.vision_range == crate::HERB_VISION
    &&& a.bird.desired_direction == a.heading
    &&& within(a.heading, 1000)
    &&& a.heading != V2::zero_spec()
    &&& a.energy == (Energy { value: START_ENERGY, max: MAX_ENERGY })
    &&& -HALF_X <= a.pos.x < HALF_X
    &&& -HALF_Y <= a.pos.y < HALF_Y
}

/// The single carnivore world initialization places: base parameters,
/// starting energy, centered, facing up, with a random initial desired
/// direction.
pub open spec fn is_start_carnivore(a: Agent) -> bool {
    &&& a.alive
    &&& a.species == Species::Carnivore
    &&& a.bird.speed == BASE_SPEED
    &&& a.bird.rotation_speed == crate::CARN_ROT_SPEED
    &&& a.bird.vision_range == crate::CARN_VISION
    &&& within(a.bird.desired_direction, 1000)
    &&& a.pos == V2::zero_spec()
    &&& a.heading == (V2 { x: 0, y: crate::vec2::UNIT })
    &&& a.energy == (Energy { value: START_ENERGY, max: MAX_ENERGY })
}

/// A living food item as world initialization places it.
pub open spec fn is_start_food(f: Food) -> bool {
    &&& f.alive
    &&& f.herb.value == HERB_VALUE
    &&& -HALF_X <= f.pos.x < HALF_X
    &&& -HALF_Y <= f.pos.y < HALF_Y
}

/// Build the initial world: `herbivores` herbivores and `herbs` food
/// items at uniformly random positions within bounds, herbivores with
/// random headings, plus one carnivore at the center. Herbivore offspring
/// start at the fixed configured value; carnivore offspring inherit the
/// parent's halved energy.
pub fn setup(herbivores: usize, herbs: usize) -> (w: World)
    requires
        herbivores + herbs + 1 <= POP_LIMIT,
    ensures
        wf(w@),
        w@.agents.len() == herbivores + 1,
        w@.foods.len() == herbs,
        forall|i: int| 0 <= i < herbivores ==> is_start_herbivore(#[trigger] w@.agents[i]),
        is_start_carnivore(w@.agents[herbivores as int]),
        forall|j: int| 0 <= j < herbs ==> is_start_food(#[trigger] w@.foods[j]),
        w@.next_id == herbivores + herbs + 1,
        w@.timer == (Timer { elapsed_ms: 0, period_ms: HERB_SPAWN_PERIOD_MS }),
        w@.herb_policy == OffspringEnergyPolicy::Fixed(OFFSPRING_ENERGY),
        w@.carn_policy == OffspringEnergyPolicy::InheritHalved,
{
    let mut agents: Vec<Agent> = Vec::new();
    let mut i: usize = 0;
    while i < herbivores
        invariant
            i <= herbivores,
            herbivores + herbs + 1 <= POP_LIMIT,
            agents@.len() == i,
            forall|j: int| 0 <= j < i ==> is_start_herbivore(#[trigger] agents@[j]),
            forall|j: int| 0 <= j < i ==> agent_wf(#[trigger] agents@[j]),
            forall|j: int| 0 <= j < i ==> (#[trigger] agents@[j].id) == j,
        decreases herbivores - i,
    {
        let hx = random_in_range(-1000, 1001);
        let hy = random_in_range(-1000, 1001);
        let hv = normalize_or_zero(V2 { x: hx, y: hy });
        let heading = if hv.x == 0 && hv.y == 0 {
            V2 { x: 0, y: crate::vec2::UNIT }
        } else {
            hv
        };
        let px = random_in_range(-HALF_X, HALF_X);
        let py = random_in_range(-HALF_Y, HALF_Y);
        let a = Agent {
            id: i as u64,
            alive: true,
            pos: V2 { x: px, y: py },
            heading,
            species: Species::Herbivore,
            bird: Herbivore::base_bird(heading),
            energy: Energy { value: START_ENERGY, max: MAX_ENERGY },
        };
        agents.push(a);
        i = i + 1;
    }
    let dx = random_in_range(-1000, 1000);
    let dy = random_in_range(-1000, 1000);
    let carn = Agent {
        id: herbivores as u64,
        alive: true,
        pos: V2 { x: 0, y: 0 },
        heading: V2 { x: 0, y: crate::vec2::UNIT },
        species: Species::Carnivore,
        bird: Carnivore::base_bird(V2 { x: dx, y: dy }),
        energy: Energy { value: START_ENERGY, max: MAX_ENERGY },
    };
    agents.push(carn);
    let mut foods: Vec<Food> = Vec::new();
    let mut j: usize = 0;
    while j < herbs
        invariant
            j <= herbs,
            herbivores + herbs + 1 <= POP_LIMIT,
            foods@.len() == j,
            forall|k: int| 0 <= k < j ==> is_start_food(#[trigger] foods@[k]),
            forall|k: int| 0 <= k < j ==> food_wf(#[trigger] foods@[k]),
            forall|k: int| 0 <= k < j ==> (#[trigger] foods@[k].id) == herbivores + 1 + k,
        decreases herbs - j,
    {
        let px = random_in_range(-HALF_X, HALF_X);
        let py = random_in_range(-HALF_Y, HALF_Y);
        let fd = Food {
            id: (herbivores + 1 + j) as u64,
            alive: true,
            pos: V2 { x: px, y: py },
            herb: Herb { value: HERB_VALUE },
        };
        foods.push(fd);
        j = j + 1;
    }
    let w = World {
        agents,
        foods,
        next_id: (herbivores + 1 + herbs) as u64,
        spawner: setup_herb_spawner(),
        herb_policy: OffspringEnergyPolicy::Fixed(OFFSPRING_ENERGY),
        carn_policy: OffspringEnergyPolicy::InheritHalved,
    };
    w
}

} // verus!
