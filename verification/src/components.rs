//! The data model: birds, species, energy, food items and the repeating
//! food-spawn timer, with their well-formedness predicates and checked
//! constructors.
use vstd::prelude::*;

use crate::vec2::{within, V2};
use crate::{
    BASE_SPEED, CARN_ROT_SPEED, CARN_VISION, DT_LIMIT, ENERGY_FLOOR, ENERGY_LIMIT,
    HERB_ROT_SPEED, HERB_VISION, PERIOD_LIMIT, POS_LIMIT, ROT_LIMIT, SPEED_LIMIT, VISION_LIMIT,
};

verus! {

/// Steering parameters of one bird, plus the desired-direction accumulator
/// that the behavior rules rebuild every tick.
#[derive(Clone, Copy, PartialEq, Eq, Structural, Debug)]
pub struct Bird {
    /// Current speed, world units per second.
    pub speed: i64,
    /// Turn rate: milli-fraction of the remaining turn applied per second.
    pub rotation_speed: i64,
    /// Vision radius in milli-units.
    pub vision_range: i64,
    /// Steering accumulator, rebuilt from world state every tick.
    pub desired_direction: V2,
}

/// Marker for the plant-eating species; also carries its base parameters.
#[derive(Clone, Copy, PartialEq, Eq, Structural, Debug)]
pub struct Herbivore;

/// Marker for the hunting species; also carries its base parameters.
#[derive(Clone, Copy, PartialEq, Eq, Structural, Debug)]
pub struct Carnivore;

/// The species tag of an agent; immutable for the agent's lifetime.
#[derive(Clone, Copy, PartialEq, Eq, Structural, Debug)]
pub enum Species {
    Herbivore,
    Carnivore,
}

/// Energy store: `value` never exceeds `max`, and may go to zero or below
/// only as a terminal marker read once per tick before removal.
#[derive(Clone, Copy, PartialEq, Eq, Structural, Debug)]
pub struct Energy {
    pub value: i64,
    pub max: i64,
}

/// Nutritional value of a food item, milli-energy granted on consumption.
#[derive(Clone, Copy, PartialEq, Eq, Structural, Debug)]
pub struct Herb {
    pub value: i64,
}

/// What energy a newborn starts with: a fixed amount (clamped to its
/// capacity), or a copy of the parent's post-halving energy.
#[derive(Clone, Copy, PartialEq, Eq, Structural, Debug)]
pub enum OffspringEnergyPolicy {
    Fixed(i64),
    InheritHalved,
}

/// One live (or removed-this-tick) agent of the registry.
#[derive(Clone, Copy, PartialEq, Eq, Structural, Debug)]
pub struct Agent {
    /// Stable identity, unique across agents and food items.
    pub id: u64,
    /// Cleared by deferred removal; dead entries leave at the tick commit.
    pub alive: bool,
    /// Position in milli-units.
    pub pos: V2,
    /// Direction the bird faces; components within one unit, normalized on
    /// use.
    pub heading: V2,
    pub species: Species,
    pub bird: Bird,
    pub energy: Energy,
}

/// One food item of the registry.
#[derive(Clone, Copy, PartialEq, Eq, Structural, Debug)]
pub struct Food {
    /// Stable identity, unique across agents and food items.
    pub id: u64,
    /// Cleared by deferred removal; dead entries leave at the tick commit.
    pub alive: bool,
    pub pos: V2,
    pub herb: Herb,
}

/// A repeating countdown over elapsed milliseconds. On a period crossing
/// it fires exactly once, even for a delta larger than the period, and
/// keeps the overshoot modulo the period.
#[derive(Clone, Copy, PartialEq, Eq, Structural, Debug)]
pub struct Timer {
    pub elapsed_ms: i64,
    pub period_ms: i64,
}

/// The food spawner's state: a single repeating timer.
#[derive(Clone, Copy, PartialEq, Eq, Structural, Debug)]
pub struct HerbSpawnConfig {
    pub timer: Timer,
}

pub open spec fn bird_wf(b: Bird) -> bool {
    &&& 0 <= b.speed <= SPEED_LIMIT
    &&& 0 <= b.rotation_speed <= ROT_LIMIT
    &&& 0 <= b.vision_range <= VISION_LIMIT
    &&& within(b.desired_direction, crate::vec2::DES_LIMIT as int)
}

pub open spec fn energy_wf(e: Energy) -> bool {
    &&& 0 <= e.max <= ENERGY_LIMIT
    &&& ENERGY_FLOOR <= e.value <= e.max
}

pub open spec fn herb_wf(h: Herb) -> bool {
    0 <= h.value <= ENERGY_LIMIT
}

pub open spec fn agent_wf(a: Agent) -> bool {
    &&& within(a.pos, POS_LIMIT as int)
    &&& within(a.heading, 1000)
    &&& bird_wf(a.bird)
    &&& energy_wf(a.energy)
}

pub open spec fn food_wf(f: Food) -> bool {
    &&& within(f.pos, POS_LIMIT as int)
    &&& herb_wf(f.herb)
}

pub open spec fn timer_wf(t: Timer) -> bool {
    &&& 0 < t.period_ms <= PERIOD_LIMIT
    &&& 0 <= t.elapsed_ms < t.period_ms
}

pub open spec fn policy_wf(p: OffspringEnergyPolicy) -> bool {
    match p {
        OffspringEnergyPolicy::Fixed(v) => 0 <= v <= ENERGY_LIMIT,
        OffspringEnergyPolicy::InheritHalved => true,
    }
}

impl Energy {
    /// Checked constructor: a negative capacity, or a value above it, is a
    /// configuration error and is rejected.
    pub fn new(value: i64, max: i64) -> (r: Option<Energy>)
        ensures
            r is Some <==> 0 <= max <= ENERGY_LIMIT && ENERGY_FLOOR <= value <= max,
            r is Some ==> r->Some_0 == (Energy { value, max }) && energy_wf(r->Some_0),
    {
        if 0 <= max && max <= ENERGY_LIMIT && ENERGY_FLOOR <= value && value <= max {
            Some(Energy { value, max })
        } else {
            None
        }
    }
}

impl Bird {
    /// Checked constructor: negative speeds, turn rates or vision radii
    /// are configuration errors and are rejected.
    pub fn new(speed: i64, rotation_speed: i64, vision_range: i64, desired_direction: V2) -> (r:
        Option<Bird>)
        ensures
            r is Some <==> 0 <= speed <= SPEED_LIMIT && 0 <= rotation_speed <= ROT_LIMIT && 0
                <= vision_range <= VISION_LIMIT && within(
                desired_direction,
                crate::vec2::DES_LIMIT as int,
            ),
            r is Some ==> r->Some_0 == (Bird { speed, rotation_speed, vision_range, desired_direction })
                && bird_wf(r->Some_0),
    {
        if 0 <= speed && speed <= SPEED_LIMIT && 0 <= rotation_speed && rotation_speed <= ROT_LIMIT
            && 0 <= vision_range && vision_range <= VISION_LIMIT
            && -crate::vec2::DES_LIMIT <= desired_direction.x && desired_direction.x
            <= crate::vec2::DES_LIMIT && -crate::vec2::DES_LIMIT <= desired_direction.y
            && desired_direction.y <= crate::vec2::DES_LIMIT {
            Some(Bird { speed, rotation_speed, vision_range, desired_direction })
        } else {
            None
        }
    }
}

impl Herbivore {
    /// The herbivore parameter preset used at world initialization.
    pub fn base_bird(desired_direction: V2) -> (b: Bird)
        requires
            within(desired_direction, crate::vec2::DES_LIMIT as int),
        ensures
            b == (Bird {
                speed: BASE_SPEED,
                rotation_speed: HERB_ROT_SPEED,
                vision_range: HERB_VISION,
                desired_direction,
            }),
            bird_wf(b),
    {
        Bird {
            speed: BASE_SPEED,
            rotation_speed: HERB_ROT_SPEED,
            vision_range: HERB_VISION,
            desired_direction,
        }
    }
}

impl Carnivore {
    /// The carnivore parameter preset used at world initialization.
    pub fn base_bird(desired_direction: V2) -> (b: Bird)
        requires
            within(desired_direction, crate::vec2::DES_LIMIT as int),
        ensures
            b == (Bird {
                speed: BASE_SPEED,
                rotation_speed: CARN_ROT_SPEED,
                vision_range: CARN_VISION,
                desired_direction,
            }),
            bird_wf(b),
    {
        Bird {
            speed: BASE_SPEED,
            rotation_speed: CARN_ROT_SPEED,
            vision_range: CARN_VISION,
            desired_direction,
        }
    }
}

/// One timer step: add the delta; on reaching the period fire once and
/// keep the remainder modulo the period.
pub open spec fn spec_tick(t: Timer, dt: int) -> (Timer, bool) {
    let total = t.elapsed_ms + dt;
    if total >= t.period_ms {
        (Timer { elapsed_ms: (total % (t.period_ms as int)) as i64, period_ms: t.period_ms }, true)
    } else {
        (Timer { elapsed_ms: total as i64, period_ms: t.period_ms }, false)
    }
}

impl Timer {
    /// Advance the timer by `dt_ms`; true when the period was crossed.
    pub fn tick(&mut self, dt_ms: i64) -> (fired: bool)
        requires
            timer_wf(*old(self)),
            0 <= dt_ms <= DT_LIMIT,
        ensures
            timer_wf(*final(self)),
            *final(self) == spec_tick(*old(self), dt_ms as int).0,
            fired == spec_tick(*old(self), dt_ms as int).1,
    {
        let total = self.elapsed_ms + dt_ms;
        if total >= self.period_ms {
            self.elapsed_ms = total % self.period_ms;
            true
        } else {
            self.elapsed_ms = total;
            false
        }
    }
}

/// Sum of a sequence of tick deltas.
pub open spec fn sum_dts(dts: Seq<int>) -> int
    decreases dts.len(),
{
    if dts.len() == 0 {
        0
    } else {
        sum_dts(dts.drop_last()) + dts.last()
    }
}

/// Run the timer over a sequence of tick deltas, counting firings.
pub open spec fn run_timer(t: Timer, dts: Seq<int>) -> (Timer, int)
    decreases dts.len(),
{
    if dts.len() == 0 {
        (t, 0)
    } else {
        let prev = run_timer(t, dts.drop_last());
        let step = spec_tick(prev.0, dts.last());
        (step.0, prev.1 + if step.1 { 1int } else { 0int })
    }
}

/// Law: over any sequence of deltas that are each at most one period, a
/// repeating timer fires exactly once per period crossing — the total
/// count is the number of whole periods in the accumulated time, never
/// more.
pub proof fn lemma_timer_fires_per_crossing(t: Timer, dts: Seq<int>)
    requires
        timer_wf(t),
        forall|i: int| 0 <= i < dts.len() ==> 0 <= #[trigger] dts[i] <= t.period_ms,
    ensures
        run_timer(t, dts).1 == (t.elapsed_ms + sum_dts(dts)) / (t.period_ms as int),
        run_timer(t, dts).0.elapsed_ms == (t.elapsed_ms + sum_dts(dts)) % (t.period_ms as int),
        run_timer(t, dts).0.period_ms == t.period_ms,
    decreases dts.len(),
{
    let p = t.period_ms as int;
    if dts.len() == 0 {
        vstd::arithmetic::div_mod::lemma_fundamental_div_mod_converse(
            t.elapsed_ms as int,
            p,
            0,
            t.elapsed_ms as int,
        );
    } else {
        lemma_timer_fires_per_crossing(t, dts.drop_last());
        let d = dts.last();
        assert(0 <= d <= p);
        let prev = run_timer(t, dts.drop_last());
        let s_prev = t.elapsed_ms + sum_dts(dts.drop_last());
        let s_all = t.elapsed_ms + sum_dts(dts);
        assert(s_all == s_prev + d);
        lemma_sum_nonneg(dts);
        lemma_sum_nonneg(dts.drop_last());
        assert(s_prev >= 0 && s_all >= 0);
        vstd::arithmetic::div_mod::lemma_fundamental_div_mod(s_prev, p);
        vstd::arithmetic::div_mod::lemma_mod_bound(s_prev, p);
        let e1 = prev.0.elapsed_ms as int;
        let c1 = prev.1;
        assert(s_prev == p * (s_prev / p) + e1);
        if e1 + d >= p {
            assert(s_all == (c1 + 1) * p + (e1 + d - p)) by (nonlinear_arith)
                requires
                    s_prev == p * c1 + e1,
                    s_all == s_prev + d,
            ;
            vstd::arithmetic::div_mod::lemma_fundamental_div_mod_converse(
                s_all,
                p,
                c1 + 1,
                e1 + d - p,
            );
            assert((e1 + d) % p == e1 + d - p) by {
                vstd::arithmetic::div_mod::lemma_fundamental_div_mod_converse(
                    e1 + d,
                    p,
                    1,
                    e1 + d - p,
                );
            }
        } else {
            assert(s_all == c1 * p + (e1 + d)) by (nonlinear_arith)
                requires
                    s_prev == p * c1 + e1,
                    s_all == s_prev + d,
            ;
            vstd::arithmetic::div_mod::lemma_fundamental_div_mod_converse(s_all, p, c1, e1 + d);
        }
    }
}

/// Nonnegative deltas sum to a nonnegative total.
pub proof fn lemma_sum_nonneg(dts: Seq<int>)
    requires
        forall|i: int| 0 <= i < dts.len() ==> 0 <= #[trigger] dts[i],
    ensures
        sum_dts(dts) >= 0,
    decreases dts.len(),
{
    if dts.len() > 0 {
        lemma_sum_nonneg(dts.drop_last());
    }
}

} // verus!
