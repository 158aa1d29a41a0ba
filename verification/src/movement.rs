//! The steering engine and per-tick behavior rules: forward integration,
//! flocking, foraging, flight, pursuit, containment and death marking.
//! Every rule reads a consistent snapshot and writes only its own fields,
//! in the explicit phase order that `systems::advance` documents.
use vstd::prelude::*;

use crate::components::{agent_wf, Agent, Bird, Energy, Food, Species};
use crate::registry::{same_admin, wf, World};
use crate::vec2::{
    clamp_i, dist_sq, normalize_or_zero, sat_add_des, scale_milli, spec_dist_sq,
    spec_neg, spec_norm, spec_scale, spec_sub, subv, tdiv, within, V2,
};
use crate::{
    BASE_SPEED, CAPTURE_RANGE_SQ, DT_LIMIT, FLEE_SPEED, POS_LIMIT, SEPARATION_RANGE_SQ,
    VISION_LIMIT, W_CONTAIN, W_FLEE, HALF_X, HALF_Y,
};

verus! {

/// The fraction of the remaining turn taken this tick, in milli-units,
/// capped at a full turn: `min(1000, rotation_speed * dt / 1000)`.
pub open spec fn turn_fraction(rot_speed: int, dt: int) -> int {
    let f = rot_speed * dt / 1000;
    if f > 1000 {
        1000
    } else {
        f
    }
}

/// Linear blend of the heading toward a target direction by the milli
/// fraction `f`, componentwise, rounding toward zero.
pub open spec fn lerp_toward(h: V2, d: V2, f: int) -> V2 {
    V2 {
        x: (h.x + tdiv(f * (d.x - h.x), 1000)) as i64,
        y: (h.y + tdiv(f * (d.y - h.y), 1000)) as i64,
    }
}

/// The blend stays inside the unit box, moves each component by at most
/// twice the turn fraction, and never wraps.
pub proof fn lemma_lerp_bounds(h: V2, d: V2, f: int)
    requires
        within(h, 1000),
        within(d, 1000),
        0 <= f <= 1000,
    ensures
        within(lerp_toward(h, d, f), 1000),
        lerp_toward(h, d, f).x as int == h.x + tdiv(f * (d.x - h.x), 1000),
        lerp_toward(h, d, f).y as int == h.y + tdiv(f * (d.y - h.y), 1000),
        -2 * f <= tdiv(f * (d.x - h.x), 1000) <= 2 * f,
        -2 * f <= tdiv(f * (d.y - h.y), 1000) <= 2 * f,
{
    lemma_lerp_component(h.x as int, d.x as int, f);
    lemma_lerp_component(h.y as int, d.y as int, f);
}

proof fn lemma_lerp_component(hc: int, dc: int, f: int)
    requires
        -1000 <= hc <= 1000,
        -1000 <= dc <= 1000,
        0 <= f <= 1000,
    ensures
        -1000 <= hc + tdiv(f * (dc - hc), 1000) <= 1000,
        -2 * f <= tdiv(f * (dc - hc), 1000) <= 2 * f,
{
    let delta = dc - hc;
    let p = f * delta;
    if delta >= 0 {
        assert(0 <= p <= 1000 * delta && p <= 2000 * f) by (nonlinear_arith)
            requires
                0 <= f <= 1000,
                0 <= delta <= 2000,
                p == f * delta,
        ;
        assert(tdiv(p, 1000) == p / 1000);
        assert(p / 1000 <= (1000 * delta) / 1000);
        assert((1000 * delta) / 1000 == delta);
        assert(p / 1000 <= (2000 * f) / 1000);
        assert((2000 * f) / 1000 == 2 * f);
    } else {
        let q = -p;
        assert(0 <= q <= 1000 * (-delta) && q <= 2000 * f) by (nonlinear_arith)
            requires
                0 <= f <= 1000,
                -2000 <= delta < 0,
                q == -(f * delta),
        ;
        assert(tdiv(p, 1000) == -(q / 1000));
        assert(q / 1000 <= (1000 * (-delta)) / 1000);
        assert((1000 * (-delta)) / 1000 == -delta);
        assert(q / 1000 <= (2000 * f) / 1000);
        assert((2000 * f) / 1000 == 2 * f);
    }
}

fn div1000_trunc(a: i64) -> (r: i64)
    requires
        -4_000_000_000_000_000_000 <= a <= 4_000_000_000_000_000_000,
    ensures
        r as int == tdiv(a as int, 1000),
{
    if a >= 0 {
        a / 1000
    } else {
        -((-a) / 1000)
    }
}

fn lerp_exec(h: V2, d: V2, f: i64) -> (r: V2)
    requires
        within(h, 1000),
        within(d, 1000),
        0 <= f <= 1000,
    ensures
        r == lerp_toward(h, d, f as int),
        within(r, 1000),
{
    proof {
        lemma_lerp_bounds(h, d, f as int);
        assert(f * ((d.x - h.x) as int) <= 2_000_000 && f * ((d.x - h.x) as int) >= -2_000_000
            && f * ((d.y - h.y) as int) <= 2_000_000 && f * ((d.y - h.y) as int) >= -2_000_000)
            by (nonlinear_arith)
            requires
                0 <= f <= 1000,
                -2000 <= d.x - h.x <= 2000,
                -2000 <= d.y - h.y <= 2000,
        ;
    }
    let tx = div1000_trunc(f * (d.x - h.x));
    let ty = div1000_trunc(f * (d.y - h.y));
    V2 { x: h.x + tx, y: h.y + ty }
}

/// One agent's forward integration for a tick of `dt` milliseconds: the
/// accumulated desired direction is normalized (or left zero) and stored,
/// the heading turns toward it by the capped turn fraction, and the
/// position advances along the new heading at the agent's speed, clamped
/// to the numeric rail.
pub open spec fn move_one(a: Agent, dt: int) -> Agent {
    if !a.alive {
        a
    } else {
        let dn = spec_norm(a.bird.desired_direction);
        let h1 = if dn == V2::zero_spec() {
            a.heading
        } else {
            lerp_toward(a.heading, dn, turn_fraction(a.bird.rotation_speed as int, dt))
        };
        let dir = spec_norm(h1);
        let wgt = a.bird.speed * dt;
        Agent {
            pos: V2 {
                x: clamp_i(a.pos.x + tdiv(wgt * dir.x, 1000), POS_LIMIT as int) as i64,
                y: clamp_i(a.pos.y + tdiv(wgt * dir.y, 1000), POS_LIMIT as int) as i64,
            },
            heading: h1,
            bird: Bird { desired_direction: dn, ..a.bird },
            ..a
        }
    }
}

/// The whole registry after forward integration.
pub open spec fn move_all(s: Seq<Agent>, dt: int) -> Seq<Agent> {
    Seq::new(s.len(), |i: int| move_one(s[i], dt))
}

/// Forward integration keeps an agent well-formed: the heading stays in
/// the unit box and the position stays inside the numeric rail.
pub proof fn lemma_move_one_wf(a: Agent, dt: int)
    requires
        agent_wf(a),
        0 <= dt <= DT_LIMIT,
    ensures
        agent_wf(move_one(a, dt)),
{
    if a.alive {
        let dd = a.bird.desired_direction;
        crate::vec2::lemma_norm_props(dd.x as int, dd.y as int);
        let dn = spec_norm(dd);
        let f = turn_fraction(a.bird.rotation_speed as int, dt);
        assert(a.bird.rotation_speed * dt >= 0) by (nonlinear_arith)
            requires
                a.bird.rotation_speed >= 0,
                dt >= 0,
        ;
        if dn != V2::zero_spec() {
            lemma_lerp_bounds(a.heading, dn, f);
        }
        let h1 = move_one(a, dt).heading;
        assert(within(h1, 1000));
    }
}

/// Law: turning never overshoots. If the desired direction is nonzero,
/// each heading component changes this tick by at most twice the turn
/// fraction, and the turn fraction itself is bounded by
/// `rotation_speed * dt / 1000` — so the orientation change is bounded in
/// proportion to the rotation speed and the elapsed time, whatever the
/// frame time does. (Headings live in the unit box of half-width 1000
/// milli-units; the factor two is that box's diameter.)
pub proof fn lemma_turn_bounded(a: Agent, dt: int)
    requires
        agent_wf(a),
        a.alive,
        0 <= dt,
        a.bird.desired_direction != V2::zero_spec(),
    ensures
        -2 * turn_fraction(a.bird.rotation_speed as int, dt) <= move_one(a, dt).heading.x
            - a.heading.x <= 2 * turn_fraction(a.bird.rotation_speed as int, dt),
        -2 * turn_fraction(a.bird.rotation_speed as int, dt) <= move_one(a, dt).heading.y
            - a.heading.y <= 2 * turn_fraction(a.bird.rotation_speed as int, dt),
        turn_fraction(a.bird.rotation_speed as int, dt) <= a.bird.rotation_speed * dt / 1000,
{
    let dd = a.bird.desired_direction;
    crate::vec2::lemma_norm_props(dd.x as int, dd.y as int);
    let dn = spec_norm(dd);
    assert(dn != V2::zero_spec());
    let f = turn_fraction(a.bird.rotation_speed as int, dt);
    assert(a.bird.rotation_speed * dt >= 0) by (nonlinear_arith)
        requires
            a.bird.rotation_speed >= 0,
            dt >= 0,
    ;
    lemma_lerp_bounds(a.heading, dn, f);
}

/// Move every bird forward: normalize-and-store its desired direction,
/// turn the heading toward it at the bounded rate, advance the position.
pub fn move_birds_forward(w: &mut World, dt_ms: i64)
    requires
        wf(old(w)@),
        0 <= dt_ms <= DT_LIMIT,
    ensures
        wf(final(w)@),
        final(w)@.agents == move_all(old(w)@.agents, dt_ms as int),
        final(w)@.foods == old(w)@.foods,
        same_admin(final(w)@, old(w)@),
{
    let ghost s0 = w.agents@;
    let n = w.agents.len();
    let mut i: usize = 0;
    while i < n
        invariant
            wf(old(w)@),
            0 <= dt_ms <= DT_LIMIT,
            n == w.agents.len(),
            i <= n,
            s0 == old(w)@.agents,
            s0.len() == n,
            w.foods@ == old(w)@.foods,
            w.next_id == old(w).next_id,
            w.spawner == old(w).spawner,
            w.herb_policy == old(w).herb_policy,
            w.carn_policy == old(w).carn_policy,
            forall|j: int| 0 <= j < i ==> #[trigger] w.agents@[j] == move_one(s0[j], dt_ms as int),
            forall|j: int| i <= j < n ==> #[trigger] w.agents@[j] == s0[j],
        decreases n - i,
    {
        let a = w.agents[i];
        proof {
            assert(agent_wf(s0[i as int]));
        }
        if a.alive {
            let dn = normalize_or_zero(a.bird.desired_direction);
            let h1 = if dn.x == 0 && dn.y == 0 {
                a.heading
            } else {
                proof {
                    assert(a.bird.rotation_speed * dt_ms <= 1_000_000_000_000
                        && a.bird.rotation_speed * dt_ms >= 0) by (nonlinear_arith)
                        requires
                            0 <= a.bird.rotation_speed <= 1_000_000,
                            0 <= dt_ms <= 1_000_000,
                    ;
                }
                let t = a.bird.rotation_speed * dt_ms / 1000;
                let f = if t > 1000 {
                    1000
                } else {
                    t
                };
                lerp_exec(a.heading, dn, f)
            };
            let dir = normalize_or_zero(h1);
            proof {
                assert(a.bird.speed * dt_ms <= 1_000_000_000_000 && a.bird.speed * dt_ms >= 0)
                    by (nonlinear_arith)
                    requires
                        0 <= a.bird.speed <= 1_000_000,
                        0 <= dt_ms <= 1_000_000,
                ;
            }
            let wgt = a.bird.speed * dt_ms;
            let step = scale_milli(wgt, dir);
            let tx = a.pos.x + step.x;
            let ty = a.pos.y + step.y;
            let px = if tx > POS_LIMIT {
                POS_LIMIT
            } else if tx < -POS_LIMIT {
                -POS_LIMIT
            } else {
                tx
            };
            let py = if ty > POS_LIMIT {
                POS_LIMIT
            } else if ty < -POS_LIMIT {
                -POS_LIMIT
            } else {
                ty
            };
            let mut a2 = a;
            a2.pos = V2 { x: px, y: py };
            a2.heading = h1;
            a2.bird.desired_direction = dn;
            w.agents.set(i, a2);
            proof {
                assert(w.agents@[i as int] == move_one(s0[i as int], dt_ms as int));
            }
        }
        i = i + 1;
    }
    proof {
        assert(w.agents@ =~= move_all(s0, dt_ms as int));
        assert forall|j: int| 0 <= j < w.agents@.len() implies agent_wf(
            #[trigger] w.agents@[j],
        ) by {
            assert(w.agents@[j] == move_one(s0[j], dt_ms as int));
            assert(agent_wf(s0[j]));
            lemma_move_one_wf(s0[j], dt_ms as int);
        }
    }
}

/// Whether a position lies at or beyond the world's half-extents.
pub open spec fn out_of_bounds(p: V2) -> bool {
    p.x >= HALF_X || p.x <= -HALF_X || p.y >= HALF_Y || p.y <= -HALF_Y
}

/// The containment contribution for a position: a strongly weighted
/// normalized pull toward the world center.
pub open spec fn contain_delta(p: V2) -> V2 {
    spec_scale(W_CONTAIN as int, spec_norm(spec_neg(p)))
}

/// One agent after the containment rule: out-of-bounds birds get the
/// center-pull added to their desired direction, others are untouched.
pub open spec fn contain_one(a: Agent) -> Agent {
    if a.alive && out_of_bounds(a.pos) {
        Agent {
            bird: Bird {
                desired_direction: sat_add_des(a.bird.desired_direction, contain_delta(a.pos)),
                ..a.bird
            },
            ..a
        }
    } else {
        a
    }
}

/// The whole registry after containment.
pub open spec fn contain_all(s: Seq<Agent>) -> Seq<Agent> {
    Seq::new(s.len(), |i: int| contain_one(s[i]))
}

/// Law: at or beyond the world boundary the containment contribution is
/// nonzero and points toward the world center — its dot product with the
/// center direction is strictly positive.
pub proof fn lemma_containment_pushes_to_center(p: V2)
    requires
        within(p, POS_LIMIT as int),
        out_of_bounds(p),
    ensures
        contain_delta(p) != V2::zero_spec(),
        contain_delta(p).x * (-p.x) + contain_delta(p).y * (-p.y) > 0,
{
    let nx = -(p.x as int);
    let ny = -(p.y as int);
    crate::vec2::lemma_norm_props(nx, ny);
    crate::vec2::lemma_norm_points_along(nx, ny);
    let u = crate::vec2::norm_i(nx, ny);
    assert(spec_neg(p).x as int == nx && spec_neg(p).y as int == ny);
    assert(spec_norm(spec_neg(p)) == u);
    assert(tdiv(10_000 * u.x, 1000) == 10 * u.x && tdiv(10_000 * u.y, 1000) == 10 * u.y)
        by (nonlinear_arith)
        requires
            -1000 <= u.x <= 1000,
            -1000 <= u.y <= 1000,
    ;
    assert(contain_delta(p).x as int == 10 * u.x && contain_delta(p).y as int == 10 * u.y);
    assert((10 * u.x) * nx + (10 * u.y) * ny > 0) by (nonlinear_arith)
        requires
            u.x * nx + u.y * ny > 0,
    ;
}

/// Steer any bird at or beyond the world bounds back toward the center.
pub fn keep_birds_in_bounds(w: &mut World)
    requires
        wf(old(w)@),
    ensures
        wf(final(w)@),
        final(w)@.agents == contain_all(old(w)@.agents),
        final(w)@.foods == old(w)@.foods,
        same_admin(final(w)@, old(w)@),
{
    let ghost s0 = w.agents@;
    let n = w.agents.len();
    let mut i: usize = 0;
    while i < n
        invariant
            wf(old(w)@),
            n == w.agents.len(),
            i <= n,
            s0 == old(w)@.agents,
            s0.len() == n,
            w.foods@ == old(w)@.foods,
            w.next_id == old(w).next_id,
            w.spawner == old(w).spawner,
            w.herb_policy == old(w).herb_policy,
            w.carn_policy == old(w).carn_policy,
            forall|j: int| 0 <= j < i ==> #[trigger] w.agents@[j] == contain_one(s0[j]),
            forall|j: int| i <= j < n ==> #[trigger] w.agents@[j] == s0[j],
        decreases n - i,
    {
        let a = w.agents[i];
        proof {
            assert(agent_wf(s0[i as int]));
        }
        if a.alive && (a.pos.x >= HALF_X || a.pos.x <= -HALF_X || a.pos.y >= HALF_Y || a.pos.y
            <= -HALF_Y) {
            let to_center = crate::vec2::negv(a.pos);
            let u = normalize_or_zero(to_center);
            let c = scale_milli(W_CONTAIN, u);
            let mut a2 = a;
            a2.bird.desired_direction = crate::vec2::add_desired(a.bird.desired_direction, c);
            w.agents.set(i, a2);
            proof {
                assert(w.agents@[i as int] == contain_one(s0[i as int]));
            }
        }
        i = i + 1;
    }
    proof {
        assert(w.agents@ =~= contain_all(s0));
        assert forall|j: int| 0 <= j < w.agents@.len() implies agent_wf(
            #[trigger] w.agents@[j],
        ) by {
            assert(w.agents@[j] == contain_one(s0[j]));
            assert(agent_wf(s0[j]));
        }
    }
}

/// One agent after the death check: any bird whose energy has reached
/// zero is marked for removal.
pub open spec fn dies_one(a: Agent) -> Agent {
    if a.alive && a.energy.value <= 0 {
        Agent { alive: false, ..a }
    } else {
        a
    }
}

/// The whole registry after the death check.
pub open spec fn dies_all(s: Seq<Agent>) -> Seq<Agent> {
    Seq::new(s.len(), |i: int| dies_one(s[i]))
}

/// Mark every bird with energy at or below zero for removal; it leaves
/// the arena at the tick commit.
pub fn zero_energy_dies(w: &mut World)
    requires
        wf(old(w)@),
    ensures
        wf(final(w)@),
        final(w)@.agents == dies_all(old(w)@.agents),
        final(w)@.foods == old(w)@.foods,
        same_admin(final(w)@, old(w)@),
        forall|j: int|
            0 <= j < final(w)@.agents.len() ==> ((#[trigger] final(w)@.agents[j]).alive <==> (
            old(w)@.agents[j].alive && old(w)@.agents[j].energy.value > 0)),
{
    let ghost s0 = w.agents@;
    let n = w.agents.len();
    let mut i: usize = 0;
    while i < n
        invariant
            wf(old(w)@),
            n == w.agents.len(),
            i <= n,
            s0 == old(w)@.agents,
            s0.len() == n,
            w.foods@ == old(w)@.foods,
            w.next_id == old(w).next_id,
            w.spawner == old(w).spawner,
            w.herb_policy == old(w).herb_policy,
            w.carn_policy == old(w).carn_policy,
            forall|j: int| 0 <= j < i ==> #[trigger] w.agents@[j] == dies_one(s0[j]),
            forall|j: int| i <= j < n ==> #[trigger] w.agents@[j] == s0[j],
        decreases n - i,
    {
        let a = w.agents[i];
        if a.alive && a.energy.value <= 0 {
            let mut a2 = a;
            a2.alive = false;
            w.agents.set(i, a2);
        }
        i = i + 1;
    }
    proof {
        assert(w.agents@ =~= dies_all(s0));
        assert forall|j: int| 0 <= j < w.agents@.len() implies agent_wf(
            #[trigger] w.agents@[j],
        ) by {
            assert(w.agents@[j] == dies_one(s0[j]));
            assert(agent_wf(s0[j]));
        }
    }
}

/// Index of the closest living agent of species `sp` within `range` of
/// `pos`, among the first `k` registry entries. Earlier entries win exact
/// ties, so the choice is deterministic in registry order.
pub open spec fn closest_of_species_upto(
    s: Seq<Agent>,
    pos: V2,
    range: int,
    sp: Species,
    k: int,
) -> Option<int>
    decreases k,
{
    if k <= 0 {
        Option::None
    } else {
        let prev = closest_of_species_upto(s, pos, range, sp, k - 1);
        let j = k - 1;
        if s[j].alive && s[j].species == sp && spec_dist_sq(s[j].pos, pos) < range * range {
            match prev {
                Option::None => Option::Some(j),
                Option::Some(p) => if spec_dist_sq(s[j].pos, pos) < spec_dist_sq(s[p].pos, pos) {
                    Option::Some(j)
                } else {
                    Option::Some(p)
                },
            }
        } else {
            prev
        }
    }
}

/// The closest living agent of a species in vision, over the whole
/// registry.
pub open spec fn closest_of_species(s: Seq<Agent>, pos: V2, range: int, sp: Species) -> Option<
    int,
> {
    closest_of_species_upto(s, pos, range, sp, s.len() as int)
}

/// A found index is in range, alive, of the species, and within vision.
pub proof fn lemma_closest_species_found(s: Seq<Agent>, pos: V2, range: int, sp: Species, k: int)
    requires
        k <= s.len(),
    ensures
        closest_of_species_upto(s, pos, range, sp, k) matches Option::Some(p) ==> 0 <= p < k
            && s[p].alive && s[p].species == sp && spec_dist_sq(s[p].pos, pos) < range * range,
    decreases k,
{
    if k > 0 {
        lemma_closest_species_found(s, pos, range, sp, k - 1);
    }
}

/// The search only reads liveness, species and position, so it gives the
/// same answer on any registry that agrees on those fields.
pub proof fn lemma_closest_species_congruent(
    s1: Seq<Agent>,
    s2: Seq<Agent>,
    pos: V2,
    range: int,
    sp: Species,
    k: int,
)
    requires
        s1.len() == s2.len(),
        forall|j: int|
            0 <= j < s1.len() ==> (#[trigger] s1[j]).alive == s2[j].alive && s1[j].species
                == s2[j].species && s1[j].pos == s2[j].pos,
        k <= s1.len(),
    ensures
        closest_of_species_upto(s1, pos, range, sp, k) == closest_of_species_upto(
            s2,
            pos,
            range,
            sp,
            k,
        ),
    decreases k,
{
    if k > 0 {
        lemma_closest_species_congruent(s1, s2, pos, range, sp, k - 1);
        assert(s1[k - 1].alive == s2[k - 1].alive && s1[k - 1].species == s2[k - 1].species && s1[k
            - 1].pos == s2[k - 1].pos);
        match closest_of_species_upto(s1, pos, range, sp, k - 1) {
            Option::Some(p) => {
                lemma_closest_species_found(s1, pos, range, sp, k - 1);
                assert(s1[p].pos == s2[p].pos);
            },
            Option::None => {},
        }
    }
}

fn closest_of_species_exec(agents: &Vec<Agent>, pos: V2, range: i64, sp: Species) -> (r: Option<
    usize,
>)
    requires
        within(pos, POS_LIMIT as int),
        0 <= range <= VISION_LIMIT,
        forall|j: int|
            0 <= j < agents@.len() ==> within((#[trigger] agents@[j]).pos, POS_LIMIT as int),
    ensures
        r matches Option::Some(u) ==> closest_of_species(agents@, pos, range as int, sp)
            == Option::Some(u as int) && u < agents@.len(),
        r is None ==> closest_of_species(agents@, pos, range as int, sp) is None,
{
    proof {
        assert(0 <= range * range <= 1_000_000_000_000_000_000) by (nonlinear_arith)
            requires
                0 <= range <= 1_000_000_000,
        ;
    }
    let rr = range * range;
    let n = agents.len();
    let mut best: Option<usize> = Option::None;
    let mut bd: i64 = 0;
    let mut j: usize = 0;
    while j < n
        invariant
            n == agents@.len(),
            j <= n,
            within(pos, POS_LIMIT as int),
            0 <= range <= VISION_LIMIT,
            rr as int == range * range,
            forall|m: int|
                0 <= m < agents@.len() ==> within((#[trigger] agents@[m]).pos, POS_LIMIT as int),
            best is None ==> closest_of_species_upto(agents@, pos, range as int, sp, j as int)
                is None,
            best matches Option::Some(b) ==> b < n && closest_of_species_upto(
                agents@,
                pos,
                range as int,
                sp,
                j as int,
            ) == Option::Some(b as int) && bd as int == spec_dist_sq(agents@[b as int].pos, pos),
        decreases n - j,
    {
        let a = agents[j];
        if a.alive && a.species == sp {
            let d = dist_sq(a.pos, pos);
            if d < rr {
                let better = match best {
                    Option::None => true,
                    Option::Some(_) => d < bd,
                };
                if better {
                    best = Option::Some(j);
                    bd = d;
                }
            }
        }
        j = j + 1;
    }
    best
}

/// One herbivore after the flight rule: if any carnivore is within
/// vision, steer strongly away from the closest one and speed up; with
/// none in sight, settle back to cruising speed.
pub open spec fn flee_one(s: Seq<Agent>, i: int) -> Agent {
    let a = s[i];
    if !(a.alive && a.species == Species::Herbivore) {
        a
    } else {
        match closest_of_species(s, a.pos, a.bird.vision_range as int, Species::Carnivore) {
            Option::Some(j) => Agent {
                bird: Bird {
                    desired_direction: sat_add_des(
                        a.bird.desired_direction,
                        spec_scale(W_FLEE as int, spec_neg(spec_norm(spec_sub(s[j].pos, a.pos)))),
                    ),
                    speed: FLEE_SPEED,
                    ..a.bird
                },
                ..a
            },
            Option::None => Agent { bird: Bird { speed: BASE_SPEED, ..a.bird }, ..a },
        }
    }
}

/// The whole registry after the flight rule.
pub open spec fn flee_all(s: Seq<Agent>) -> Seq<Agent> {
    Seq::new(s.len(), |i: int| flee_one(s, i))
}

/// Every herbivore checks for the closest carnivore in vision and either
/// flees it at raised speed or cruises.
pub fn herbivore_flee(w: &mut World)
    requires
        wf(old(w)@),
    ensures
        wf(final(w)@),
        final(w)@.agents == flee_all(old(w)@.agents),
        final(w)@.foods == old(w)@.foods,
        same_admin(final(w)@, old(w)@),
{
    let ghost s0 = w.agents@;
    let n = w.agents.len();
    let mut i: usize = 0;
    while i < n
        invariant
            wf(old(w)@),
            n == w.agents.len(),
            i <= n,
            s0 == old(w)@.agents,
            s0.len() == n,
            w.foods@ == old(w)@.foods,
            w.next_id == old(w).next_id,
            w.spawner == old(w).spawner,
            w.herb_policy == old(w).herb_policy,
            w.carn_policy == old(w).carn_policy,
            forall|j: int| 0 <= j < i ==> #[trigger] w.agents@[j] == flee_one(s0, j),
            forall|j: int| i <= j < n ==> #[trigger] w.agents@[j] == s0[j],
        decreases n - i,
    {
        let a = w.agents[i];
        proof {
            assert(agent_wf(s0[i as int]));
            assert forall|j: int| 0 <= j < n implies (#[trigger] w.agents@[j]).alive == s0[j].alive
                && w.agents@[j].species == s0[j].species && w.agents@[j].pos == s0[j].pos by {
                if j < i {
                    assert(w.agents@[j] == flee_one(s0, j));
                }
            }
            assert forall|j: int| 0 <= j < n implies within(
                (#[trigger] w.agents@[j]).pos,
                POS_LIMIT as int,
            ) by {
                assert(w.agents@[j].pos == s0[j].pos);
                assert(agent_wf(s0[j]));
            }
        }
        if a.alive && a.species == Species::Herbivore {
            let r = closest_of_species_exec(
                &w.agents,
                a.pos,
                a.bird.vision_range,
                Species::Carnivore,
            );
            proof {
                lemma_closest_species_congruent(
                    w.agents@,
                    s0,
                    a.pos,
                    a.bird.vision_range as int,
                    Species::Carnivore,
                    n as int,
                );
            }
            let mut a2 = a;
            match r {
                Option::Some(u) => {
                    proof {
                        lemma_closest_species_found(
                            s0,
                            a.pos,
                            a.bird.vision_range as int,
                            Species::Carnivore,
                            n as int,
                        );
                    }
                    let dvec = subv(w.agents[u].pos, a.pos);
                    let un = normalize_or_zero(dvec);
                    let c = scale_milli(W_FLEE, crate::vec2::negv(un));
                    a2.bird.desired_direction = crate::vec2::add_desired(
                        a.bird.desired_direction,
                        c,
                    );
                    a2.bird.speed = FLEE_SPEED;
                },
                Option::None => {
                    a2.bird.speed = BASE_SPEED;
                },
            }
            w.agents.set(i, a2);
            proof {
                assert(w.agents@[i as int] == flee_one(s0, i as int));
            }
        }
        i = i + 1;
    }
    proof {
        assert(w.agents@ =~= flee_all(s0));
        assert forall|j: int| 0 <= j < w.agents@.len() implies agent_wf(
            #[trigger] w.agents@[j],
        ) by {
            assert(w.agents@[j] == flee_one(s0, j));
            assert(agent_wf(s0[j]));
        }
    }
}

/// `j` is a same-species flock neighbor that agent `i` can see: another
/// living herbivore strictly inside `i`'s vision radius.
pub open spec fn vis_cond(s: Seq<Agent>, i: int, j: int) -> bool {
    j != i && s[j].alive && s[j].species == Species::Herbivore && spec_dist_sq(s[j].pos, s[i].pos)
        < s[i].bird.vision_range * s[i].bird.vision_range
}

/// A visible neighbor close enough to repel: within the separation
/// sub-threshold. Neighbors beyond it do not contribute to separation.
pub open spec fn sep_cond(s: Seq<Agent>, i: int, j: int) -> bool {
    vis_cond(s, i, j) && spec_dist_sq(s[j].pos, s[i].pos) < SEPARATION_RANGE_SQ
}

/// Sum of the offsets from agent `i` to its close neighbors among the
/// first `k` entries (the separation input).
pub open spec fn sep_sum(s: Seq<Agent>, i: int, k: int) -> (int, int)
    decreases k,
{
    if k <= 0 {
        (0int, 0int)
    } else {
        let p = sep_sum(s, i, k - 1);
        if sep_cond(s, i, k - 1) {
            (p.0 + s[k - 1].pos.x - s[i].pos.x, p.1 + s[k - 1].pos.y - s[i].pos.y)
        } else {
            p
        }
    }
}

/// Sum of the offsets from agent `i` to every visible neighbor (the
/// cohesion input).
pub open spec fn coh_sum(s: Seq<Agent>, i: int, k: int) -> (int, int)
    decreases k,
{
    if k <= 0 {
        (0int, 0int)
    } else {
        let p = coh_sum(s, i, k - 1);
        if vis_cond(s, i, k - 1) {
            (p.0 + s[k - 1].pos.x - s[i].pos.x, p.1 + s[k - 1].pos.y - s[i].pos.y)
        } else {
            p
        }
    }
}

/// Sum of the normalized headings of every visible neighbor (the
/// alignment input).
pub open spec fn align_sum(s: Seq<Agent>, i: int, k: int) -> (int, int)
    decreases k,
{
    if k <= 0 {
        (0int, 0int)
    } else {
        let p = align_sum(s, i, k - 1);
        if vis_cond(s, i, k - 1) {
            (
                p.0 + spec_norm(s[k - 1].heading).x,
                p.1 + spec_norm(s[k - 1].heading).y,
            )
        } else {
            p
        }
    }
}

/// The flocking contribution for agent `i`: normalized alignment, plus
/// weakly weighted normalized cohesion, plus strongly weighted normalized
/// separation pointing away from close neighbors. With no visible
/// neighbor every part normalizes to zero.
pub open spec fn flock_delta(s: Seq<Agent>, i: int) -> V2 {
    let sep = sep_sum(s, i, s.len() as int);
    let coh = coh_sum(s, i, s.len() as int);
    let ali = align_sum(s, i, s.len() as int);
    crate::vec2::spec_add(
        crate::vec2::spec_add(
            crate::vec2::norm_i(ali.0, ali.1),
            spec_scale(crate::W_COHESION as int, crate::vec2::norm_i(coh.0, coh.1)),
        ),
        spec_scale(crate::W_SEPARATION as int, spec_neg(crate::vec2::norm_i(sep.0, sep.1))),
    )
}

/// One agent after the flocking rule; only living herbivores steer by it.
pub open spec fn flock_one(s: Seq<Agent>, i: int) -> Agent {
    let a = s[i];
    if a.alive && a.species == Species::Herbivore {
        Agent {
            bird: Bird {
                desired_direction: sat_add_des(a.bird.desired_direction, flock_delta(s, i)),
                ..a.bird
            },
            ..a
        }
    } else {
        a
    }
}

/// The whole registry after the flocking rule.
pub open spec fn flock_all(s: Seq<Agent>) -> Seq<Agent> {
    Seq::new(s.len(), |i: int| flock_one(s, i))
}

fn flock_delta_exec(agents: &Vec<Agent>, i: usize) -> (d: V2)
    requires
        i < agents@.len(),
        agents@.len() <= crate::POP_LIMIT,
        forall|j: int| 0 <= j < agents@.len() ==> agent_wf(#[trigger] agents@[j]),
    ensures
        d == flock_delta(agents@, i as int),
        within(d, 6100),
{
    let ghost s = agents@;
    let n = agents.len();
    let a = agents[i];
    proof {
        assert(agent_wf(s[i as int]));
        assert(0 <= a.bird.vision_range * a.bird.vision_range <= 1_000_000_000_000_000_000)
            by (nonlinear_arith)
            requires
                0 <= a.bird.vision_range <= 1_000_000_000,
        ;
    }
    let rr = a.bird.vision_range * a.bird.vision_range;
    let mut sx: i64 = 0;
    let mut sy: i64 = 0;
    let mut cx: i64 = 0;
    let mut cy: i64 = 0;
    let mut ax: i64 = 0;
    let mut ay: i64 = 0;
    let mut j: usize = 0;
    while j < n
        invariant
            n == agents@.len(),
            n <= crate::POP_LIMIT,
            j <= n,
            i < n,
            s == agents@,
            a == agents@[i as int],
            forall|m: int| 0 <= m < agents@.len() ==> agent_wf(#[trigger] agents@[m]),
            rr as int == a.bird.vision_range * a.bird.vision_range,
            (sx as int, sy as int) == sep_sum(s, i as int, j as int),
            (cx as int, cy as int) == coh_sum(s, i as int, j as int),
            (ax as int, ay as int) == align_sum(s, i as int, j as int),
            -20_000 * (j as int) <= sx as int <= 20_000 * (j as int),
            -20_000 * (j as int) <= sy as int <= 20_000 * (j as int),
            -1_000_000_000 * (j as int) <= cx as int <= 1_000_000_000 * (j as int),
            -1_000_000_000 * (j as int) <= cy as int <= 1_000_000_000 * (j as int),
            -1000 * (j as int) <= ax as int <= 1000 * (j as int),
            -1000 * (j as int) <= ay as int <= 1000 * (j as int),
        decreases n - j,
    {
        let b = agents[j];
        proof {
            assert(agent_wf(s[j as int]));
        }
        if j != i && b.alive && b.species == Species::Herbivore {
            let d = dist_sq(b.pos, a.pos);
            if d < rr {
                let dx = b.pos.x - a.pos.x;
                let dy = b.pos.y - a.pos.y;
                proof {
                    assert(-1_000_000_000 <= dx <= 1_000_000_000 && -1_000_000_000 <= dy
                        <= 1_000_000_000) by (nonlinear_arith)
                        requires
                            dx * dx + dy * dy < a.bird.vision_range * a.bird.vision_range,
                            0 <= a.bird.vision_range <= 1_000_000_000,
                            dx == b.pos.x - a.pos.x,
                            dy == b.pos.y - a.pos.y,
                    ;
                }
                cx = cx + dx;
                cy = cy + dy;
                let hn = normalize_or_zero(b.heading);
                ax = ax + hn.x;
                ay = ay + hn.y;
                if d < SEPARATION_RANGE_SQ {
                    proof {
                        assert(-20_000 <= dx <= 20_000 && -20_000 <= dy <= 20_000)
                            by (nonlinear_arith)
                            requires
                                dx * dx + dy * dy < 400_000_000,
                                dx == b.pos.x - a.pos.x,
                                dy == b.pos.y - a.pos.y,
                        ;
                    }
                    sx = sx + dx;
                    sy = sy + dy;
                }
            }
        }
        j = j + 1;
    }
    let an = normalize_or_zero(V2 { x: ax, y: ay });
    let cn = normalize_or_zero(V2 { x: cx, y: cy });
    let sn = normalize_or_zero(V2 { x: sx, y: sy });
    let cw = scale_milli(crate::W_COHESION, cn);
    let sw = scale_milli(crate::W_SEPARATION, crate::vec2::negv(sn));
    let r = crate::vec2::addv(crate::vec2::addv(an, cw), sw);
    r
}

/// Every herbivore steers by the classic flocking rules against the
/// snapshot of its visible flock: separation, cohesion and alignment.
pub fn herbivore_flock_movement(w: &mut World)
    requires
        wf(old(w)@),
    ensures
        wf(final(w)@),
        final(w)@.agents == flock_all(old(w)@.agents),
        final(w)@.foods == old(w)@.foods,
        same_admin(final(w)@, old(w)@),
{
    let ghost s0 = w.agents@;
    let n = w.agents.len();
    let mut deltas: Vec<V2> = Vec::new();
    let mut i: usize = 0;
    while i < n
        invariant
            wf(old(w)@),
            n == w.agents.len(),
            i <= n,
            s0 == old(w)@.agents,
            s0.len() == n,
            w == old(w),
            deltas@.len() == i,
            forall|k: int| 0 <= k < i ==> #[trigger] deltas@[k] == flock_delta(s0, k) && within(
                deltas@[k],
                6100,
            ),
        decreases n - i,
    {
        let d = flock_delta_exec(&w.agents, i);
        deltas.push(d);
        i = i + 1;
    }
    let mut i: usize = 0;
    while i < n
        invariant
            wf(old(w)@),
            n == w.agents.len(),
            i <= n,
            s0 == old(w)@.agents,
            s0.len() == n,
            w.foods@ == old(w)@.foods,
            w.next_id == old(w).next_id,
            w.spawner == old(w).spawner,
            w.herb_policy == old(w).herb_policy,
            w.carn_policy == old(w).carn_policy,
            deltas@.len() == n,
            forall|k: int| 0 <= k < n ==> #[trigger] deltas@[k] == flock_delta(s0, k) && within(
                deltas@[k],
                6100,
            ),
            forall|j: int| 0 <= j < i ==> #[trigger] w.agents@[j] == flock_one(s0, j),
            forall|j: int| i <= j < n ==> #[trigger] w.agents@[j] == s0[j],
        decreases n - i,
    {
        let a = w.agents[i];
        proof {
            assert(agent_wf(s0[i as int]));
        }
        if a.alive && a.species == Species::Herbivore {
            let mut a2 = a;
            a2.bird.desired_direction = crate::vec2::add_desired(
                a.bird.desired_direction,
                deltas[i],
            );
            w.agents.set(i, a2);
            proof {
                assert(w.agents@[i as int] == flock_one(s0, i as int));
            }
        }
        i = i + 1;
    }
    proof {
        assert(w.agents@ =~= flock_all(s0));
        assert forall|j: int| 0 <= j < w.agents@.len() implies agent_wf(
            #[trigger] w.agents@[j],
        ) by {
            assert(w.agents@[j] == flock_one(s0, j));
            assert(agent_wf(s0[j]));
        }
    }
}

/// Add a consumption gain to an energy store, clamped to its maximum.
pub open spec fn gain_energy(e: Energy, g: int) -> Energy {
    Energy {
        value: (if e.value + g > e.max {
            e.max as int
        } else {
            e.value + g
        }) as i64,
        max: e.max,
    }
}

/// Index of the closest living food item within `range` of `pos`, among
/// the first `k`; earlier entries win exact ties.
pub open spec fn closest_food_upto(f: Seq<Food>, pos: V2, range: int, k: int) -> Option<int>
    decreases k,
{
    if k <= 0 {
        Option::None
    } else {
        let prev = closest_food_upto(f, pos, range, k - 1);
        let j = k - 1;
        if f[j].alive && spec_dist_sq(f[j].pos, pos) < range * range {
            match prev {
                Option::None => Option::Some(j),
                Option::Some(p) => if spec_dist_sq(f[j].pos, pos) < spec_dist_sq(f[p].pos, pos) {
                    Option::Some(j)
                } else {
                    Option::Some(p)
                },
            }
        } else {
            prev
        }
    }
}

/// The closest living food item in vision, over the whole registry.
pub open spec fn closest_food(f: Seq<Food>, pos: V2, range: int) -> Option<int> {
    closest_food_upto(f, pos, range, f.len() as int)
}

/// A found food index is in range, alive and within vision.
pub proof fn lemma_closest_food_found(f: Seq<Food>, pos: V2, range: int, k: int)
    requires
        k <= f.len(),
    ensures
        closest_food_upto(f, pos, range, k) matches Option::Some(p) ==> 0 <= p < k && f[p].alive
            && spec_dist_sq(f[p].pos, pos) < range * range,
    decreases k,
{
    if k > 0 {
        lemma_closest_food_found(f, pos, range, k - 1);
    }
}

fn closest_food_exec(foods: &Vec<Food>, pos: V2, range: i64) -> (r: Option<usize>)
    requires
        within(pos, POS_LIMIT as int),
        0 <= range <= VISION_LIMIT,
        forall|j: int|
            0 <= j < foods@.len() ==> within((#[trigger] foods@[j]).pos, POS_LIMIT as int),
    ensures
        r matches Option::Some(u) ==> closest_food(foods@, pos, range as int) == Option::Some(
            u as int,
        ) && u < foods@.len(),
        r is None ==> closest_food(foods@, pos, range as int) is None,
{
    proof {
        assert(0 <= range * range <= 1_000_000_000_000_000_000) by (nonlinear_arith)
            requires
                0 <= range <= 1_000_000_000,
        ;
    }
    let rr = range * range;
    let n = foods.len();
    let mut best: Option<usize> = Option::None;
    let mut bd: i64 = 0;
    let mut j: usize = 0;
    while j < n
        invariant
            n == foods@.len(),
            j <= n,
            within(pos, POS_LIMIT as int),
            0 <= range <= VISION_LIMIT,
            rr as int == range * range,
            forall|m: int|
                0 <= m < foods@.len() ==> within((#[trigger] foods@[m]).pos, POS_LIMIT as int),
            best is None ==> closest_food_upto(foods@, pos, range as int, j as int) is None,
            best matches Option::Some(b) ==> b < n && closest_food_upto(
                foods@,
                pos,
                range as int,
                j as int,
            ) == Option::Some(b as int) && bd as int == spec_dist_sq(foods@[b as int].pos, pos),
        decreases n - j,
    {
        let fd = foods[j];
        if fd.alive {
            let d = dist_sq(fd.pos, pos);
            if d < rr {
                let better = match best {
                    Option::None => true,
                    Option::Some(_) => d < bd,
                };
                if better {
                    best = Option::Some(j);
                    bd = d;
                }
            }
        }
        j = j + 1;
    }
    best
}

/// One step of the foraging pass: herbivore `i`, unless nearly sated,
/// steers toward the closest food item in vision; within capture range it
/// consumes the item at once — energy gain clamped to its maximum, the
/// item marked removed so no later forager this tick sees it.
pub open spec fn feed_one(s: Seq<Agent>, f: Seq<Food>, i: int) -> (Seq<Agent>, Seq<Food>) {
    let a = s[i];
    if !(a.alive && a.species == Species::Herbivore) {
        (s, f)
    } else if a.energy.value * 20 >= a.energy.max * 19 {
        (s, f)
    } else {
        match closest_food(f, a.pos, a.bird.vision_range as int) {
            Option::None => (s, f),
            Option::Some(j) => {
                let dd2 = sat_add_des(
                    a.bird.desired_direction,
                    spec_scale(crate::W_FORAGE as int, spec_norm(spec_sub(f[j].pos, a.pos))),
                );
                let a2 = Agent { bird: Bird { desired_direction: dd2, ..a.bird }, ..a };
                if spec_dist_sq(f[j].pos, a.pos) < CAPTURE_RANGE_SQ {
                    (
                        s.update(i, Agent { energy: gain_energy(a.energy, f[j].herb.value as int), ..a2 }),
                        f.update(j, Food { alive: false, ..f[j] }),
                    )
                } else {
                    (s.update(i, a2), f)
                }
            },
        }
    }
}

/// The foraging pass over the first `k` agents, in registry order.
pub open spec fn feed_upto(s: Seq<Agent>, f: Seq<Food>, k: int) -> (Seq<Agent>, Seq<Food>)
    decreases k,
{
    if k <= 0 {
        (s, f)
    } else {
        let prev = feed_upto(s, f, k - 1);
        feed_one(prev.0, prev.1, k - 1)
    }
}

/// Herbivores forage: steer toward the closest food in vision and
/// consume it within capture range, in registry order.
pub fn herbivore_feed(w: &mut World)
    requires
        wf(old(w)@),
    ensures
        wf(final(w)@),
        final(w)@.agents == feed_upto(old(w)@.agents, old(w)@.foods, old(w)@.agents.len() as int).0,
        final(w)@.foods == feed_upto(old(w)@.agents, old(w)@.foods, old(w)@.agents.len() as int).1,
        same_admin(final(w)@, old(w)@),
{
    let ghost s0 = w.agents@;
    let ghost f0 = w.foods@;
    let n = w.agents.len();
    let mut i: usize = 0;
    while i < n
        invariant
            wf(old(w)@),
            n == w.agents.len(),
            i <= n,
            s0 == old(w)@.agents,
            f0 == old(w)@.foods,
            s0.len() == n,
            w.foods@.len() == f0.len(),
            w.next_id == old(w).next_id,
            w.spawner == old(w).spawner,
            w.herb_policy == old(w).herb_policy,
            w.carn_policy == old(w).carn_policy,
            w.agents@ == feed_upto(s0, f0, i as int).0,
            w.foods@ == feed_upto(s0, f0, i as int).1,
            forall|j: int| 0 <= j < n ==> (#[trigger] w.agents@[j]).id == s0[j].id,
            forall|j: int| 0 <= j < w.foods@.len() ==> (#[trigger] w.foods@[j]).id == f0[j].id,
            forall|j: int| 0 <= j < n ==> agent_wf(#[trigger] w.agents@[j]),
            forall|j: int| 0 <= j < w.foods@.len() ==> crate::components::food_wf(
                #[trigger] w.foods@[j],
            ),
        decreases n - i,
    {
        let ghost s1 = w.agents@;
        let ghost f1 = w.foods@;
        let a = w.agents[i];
        proof {
            assert(agent_wf(s1[i as int]));
        }
        if a.alive && a.species == Species::Herbivore && !(a.energy.value * 20 >= a.energy.max
            * 19) {
            let r = closest_food_exec(&w.foods, a.pos, a.bird.vision_range);
            match r {
                Option::Some(u) => {
                    proof {
                        lemma_closest_food_found(
                            f1,
                            a.pos,
                            a.bird.vision_range as int,
                            f1.len() as int,
                        );
                    }
                    let fd = w.foods[u];
                    let dvec = subv(fd.pos, a.pos);
                    let un = normalize_or_zero(dvec);
                    let c = scale_milli(crate::W_FORAGE, un);
                    let mut a2 = a;
                    a2.bird.desired_direction = crate::vec2::add_desired(
                        a.bird.desired_direction,
                        c,
                    );
                    let dcap = dist_sq(fd.pos, a.pos);
                    if dcap < CAPTURE_RANGE_SQ {
                        let sum = a.energy.value + fd.herb.value;
                        let nv = if sum > a.energy.max {
                            a.energy.max
                        } else {
                            sum
                        };
                        a2.energy.value = nv;
                        w.agents.set(i, a2);
                        let mut fd2 = fd;
                        fd2.alive = false;
                        w.foods.set(u, fd2);
                    } else {
                        w.agents.set(i, a2);
                    }
                },
                Option::None => {},
            }
        }
        proof {
            assert(w.agents@ == feed_one(s1, f1, i as int).0);
            assert(w.foods@ == feed_one(s1, f1, i as int).1);
        }
        i = i + 1;
    }
}

/// One step of the pursuit pass: carnivore `i` rests at cruising speed
/// when nearly sated or when no herbivore is visible; otherwise it chases
/// the closest herbivore's predicted position at hunting speed, and
/// within capture range consumes it — a fixed gain clamped to its
/// maximum, the prey marked removed so a later hunter this tick cannot
/// take it again.
pub open spec fn hunt_one(s: Seq<Agent>, i: int) -> Seq<Agent> {
    let a = s[i];
    if !(a.alive && a.species == Species::Carnivore) {
        s
    } else if a.energy.value * 20 >= a.energy.max * 19 {
        s.update(i, Agent { bird: Bird { speed: BASE_SPEED, ..a.bird }, ..a })
    } else {
        match closest_of_species(s, a.pos, a.bird.vision_range as int, Species::Herbivore) {
            Option::None => s.update(i, Agent { bird: Bird { speed: BASE_SPEED, ..a.bird }, ..a }),
            Option::Some(j) => {
                let prey = s[j];
                let predicted = crate::vec2::spec_add(
                    prey.pos,
                    spec_scale(crate::PREDICT_AHEAD as int, spec_norm(prey.heading)),
                );
                let dd2 = sat_add_des(
                    a.bird.desired_direction,
                    spec_norm(spec_sub(predicted, a.pos)),
                );
                let a2 = Agent {
                    bird: Bird { desired_direction: dd2, speed: crate::HUNT_SPEED, ..a.bird },
                    ..a
                };
                if spec_dist_sq(prey.pos, a.pos) < CAPTURE_RANGE_SQ {
                    s.update(i, Agent { energy: gain_energy(a.energy, crate::KILL_GAIN as int), ..a2 }).update(
                        j,
                        Agent { alive: false, ..prey },
                    )
                } else {
                    s.update(i, a2)
                }
            },
        }
    }
}

/// The pursuit pass over the first `k` agents, in registry order: the
/// earliest hunter in the registry wins a contested prey.
pub open spec fn hunt_upto(s: Seq<Agent>, k: int) -> Seq<Agent>
    decreases k,
{
    if k <= 0 {
        s
    } else {
        hunt_one(hunt_upto(s, k - 1), k - 1)
    }
}

/// Carnivores hunt: chase the closest visible herbivore's predicted
/// position and consume it within capture range, in registry order.
pub fn carnivore_movement(w: &mut World)
    requires
        wf(old(w)@),
    ensures
        wf(final(w)@),
        final(w)@.agents == hunt_upto(old(w)@.agents, old(w)@.agents.len() as int),
        final(w)@.foods == old(w)@.foods,
        same_admin(final(w)@, old(w)@),
{
    let ghost s0 = w.agents@;
    let n = w.agents.len();
    let mut i: usize = 0;
    while i < n
        invariant
            wf(old(w)@),
            n == w.agents.len(),
            i <= n,
            s0 == old(w)@.agents,
            s0.len() == n,
            w.foods@ == old(w)@.foods,
            w.next_id == old(w).next_id,
            w.spawner == old(w).spawner,
            w.herb_policy == old(w).herb_policy,
            w.carn_policy == old(w).carn_policy,
            w.agents@ == hunt_upto(s0, i as int),
            forall|j: int| 0 <= j < n ==> (#[trigger] w.agents@[j]).id == s0[j].id,
            forall|j: int| 0 <= j < n ==> agent_wf(#[trigger] w.agents@[j]),
        decreases n - i,
    {
        let ghost s1 = w.agents@;
        let a = w.agents[i];
        proof {
            assert(agent_wf(s1[i as int]));
        }
        if a.alive && a.species == Species::Carnivore {
            if a.energy.value * 20 >= a.energy.max * 19 {
                let mut a2 = a;
                a2.bird.speed = BASE_SPEED;
                w.agents.set(i, a2);
            } else {
                let r = closest_of_species_exec(
                    &w.agents,
                    a.pos,
                    a.bird.vision_range,
                    Species::Herbivore,
                );
                match r {
                    Option::Some(u) => {
                        proof {
                            lemma_closest_species_found(
                                s1,
                                a.pos,
                                a.bird.vision_range as int,
                                Species::Herbivore,
                                n as int,
                            );
                            assert(s1[u as int].species == Species::Herbivore);
                            assert(u as int != i as int);
                        }
                        let prey = w.agents[u];
                        let hn = normalize_or_zero(prey.heading);
                        let ahead = scale_milli(crate::PREDICT_AHEAD, hn);
                        let predicted = crate::vec2::addv(prey.pos, ahead);
                        let dvec = subv(predicted, a.pos);
                        let un = normalize_or_zero(dvec);
                        let mut a2 = a;
                        a2.bird.desired_direction = crate::vec2::add_desired(
                            a.bird.desired_direction,
                            un,
                        );
                        a2.bird.speed = crate::HUNT_SPEED;
                        let dcap = dist_sq(prey.pos, a.pos);
                        if dcap < CAPTURE_RANGE_SQ {
                            let sum = a.energy.value + crate::KILL_GAIN;
                            let nv = if sum > a.energy.max {
                                a.energy.max
                            } else {
                                sum
                            };
                            a2.energy.value = nv;
                            w.agents.set(i, a2);
                            let mut prey2 = prey;
                            prey2.alive = false;
                            w.agents.set(u, prey2);
                        } else {
                            w.agents.set(i, a2);
                        }
                    },
                    Option::None => {
                        let mut a2 = a;
                        a2.bird.speed = BASE_SPEED;
                        w.agents.set(i, a2);
                    },
                }
            }
        }
        proof {
            assert(w.agents@ == hunt_one(s1, i as int));
        }
        i = i + 1;
    }
}

} // verus!
