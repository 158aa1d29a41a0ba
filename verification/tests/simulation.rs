use birds::components::{
    Agent, Bird, Energy, Food, Herb, HerbSpawnConfig, OffspringEnergyPolicy, Species, Timer,
};
use birds::movement::{
    carnivore_movement, herbivore_feed, herbivore_flee, herbivore_flock_movement,
    keep_birds_in_bounds, move_birds_forward,
};
use birds::registry::World;
use birds::systems::{
    advance, energy_drain, setup, spawn_herbivore_offspring, zero_energy_dies,
};
use birds::vec2::V2;
use birds::{
    BASE_SPEED, FLEE_SPEED, HERB_VALUE, HERB_VISION, HUNT_SPEED, MAX_ENERGY, OFFSPRING_ENERGY,
    START_ENERGY, HALF_X, HALF_Y,
};

fn herbivore(id: u64, pos: V2, energy: i64) -> Agent {
    Agent {
        id,
        alive: true,
        pos,
        heading: V2 { x: 0, y: 1000 },
        species: Species::Herbivore,
        bird: Bird {
            speed: BASE_SPEED,
            rotation_speed: 1000,
            vision_range: HERB_VISION,
            desired_direction: V2 { x: 0, y: 0 },
        },
        energy: Energy { value: energy, max: MAX_ENERGY },
    }
}

fn carnivore(id: u64, pos: V2, energy: i64) -> Agent {
    Agent {
        id,
        alive: true,
        pos,
        heading: V2 { x: 0, y: 1000 },
        species: Species::Carnivore,
        bird: Bird {
            speed: BASE_SPEED,
            rotation_speed: 1500,
            vision_range: birds::CARN_VISION,
            desired_direction: V2 { x: 0, y: 0 },
        },
        energy: Energy { value: energy, max: MAX_ENERGY },
    }
}

fn world(agents: Vec<Agent>, foods: Vec<Food>) -> World {
    let next = (agents.len() + foods.len()) as u64;
    World {
        agents,
        foods,
        next_id: next,
        // a long spawner period keeps scenario ticks from adding food
        spawner: HerbSpawnConfig { timer: Timer { elapsed_ms: 0, period_ms: 100_000 } },
        herb_policy: OffspringEnergyPolicy::Fixed(OFFSPRING_ENERGY),
        carn_policy: OffspringEnergyPolicy::InheritHalved,
    }
}

fn food(id: u64, pos: V2) -> Food {
    Food { id, alive: true, pos, herb: Herb { value: HERB_VALUE } }
}

#[test]
fn lone_herbivore_drains_exactly_one_unit_per_second() {
    // energy 10 of 100, speed 100, one second: drain is exactly 1.0
    let mut w = world(vec![herbivore(0, V2 { x: 0, y: 0 }, 10_000)], vec![]);
    advance(&mut w, 1000);
    assert_eq!(w.agents.len(), 1);
    assert!(w.agents[0].alive);
    assert_eq!(w.agents[0].energy.value, 9_000);
    // it cruised forward along its heading for 100 units
    assert_eq!(w.agents[0].pos, V2 { x: 0, y: 100_000 });
}

#[test]
fn reproduction_halves_parent_and_spawns_configured_offspring() {
    // energy 96 of 100 crosses the 80% threshold
    let mut w = world(vec![herbivore(0, V2 { x: 0, y: 0 }, 96_000)], vec![]);
    advance(&mut w, 0);
    assert_eq!(w.agents.len(), 2);
    assert_eq!(w.agents[0].energy.value, 48_000);
    let child = &w.agents[1];
    assert_eq!(child.energy.value, OFFSPRING_ENERGY);
    assert_eq!(child.energy.max, MAX_ENERGY);
    assert!(matches!(child.species, Species::Herbivore));
    // offspring inherits the parent's physical parameters
    assert_eq!(child.bird.speed, w.agents[0].bird.speed);
    assert_eq!(child.bird.rotation_speed, w.agents[0].bird.rotation_speed);
    assert_eq!(child.bird.vision_range, w.agents[0].bird.vision_range);
    assert_eq!(child.heading, w.agents[0].heading);
    // displaced backward along the parent's heading by 10 units
    assert_eq!(child.pos, V2 { x: 0, y: -10_000 });
}

#[test]
fn carnivore_offspring_inherits_halved_energy() {
    let mut w = world(vec![carnivore(0, V2 { x: 0, y: 0 }, 90_000)], vec![]);
    birds::systems::spawn_carnivore_offspring(&mut w);
    assert_eq!(w.agents.len(), 2);
    assert_eq!(w.agents[0].energy.value, 45_000);
    assert_eq!(w.agents[1].energy.value, 45_000);
    assert!(matches!(w.agents[1].species, Species::Carnivore));
}

#[test]
fn capture_removes_prey_and_feeds_carnivore() {
    // carnivore at 50 of 100, herbivore 10 units away (inside capture range 20)
    let mut w = world(
        vec![
            carnivore(0, V2 { x: 0, y: 0 }, 50_000),
            herbivore(1, V2 { x: 10_000, y: 0 }, 50_000),
        ],
        vec![],
    );
    advance(&mut w, 0);
    assert_eq!(w.agents.len(), 1);
    assert!(matches!(w.agents[0].species, Species::Carnivore));
    assert_eq!(w.agents[0].energy.value, 60_000);
}

#[test]
fn capture_gain_is_clamped_to_max() {
    let mut w = world(
        vec![
            carnivore(0, V2 { x: 0, y: 0 }, 94_000),
            herbivore(1, V2 { x: 10_000, y: 0 }, 50_000),
        ],
        vec![],
    );
    carnivore_movement(&mut w);
    assert_eq!(w.agents[0].energy.value, 100_000);
    assert!(!w.agents[1].alive);
    assert_eq!(w.agents[0].bird.speed, HUNT_SPEED);
}

#[test]
fn sated_carnivore_rests() {
    // 96% of max: skips hunting and cruises
    let mut w = world(
        vec![
            carnivore(0, V2 { x: 0, y: 0 }, 96_000),
            herbivore(1, V2 { x: 10_000, y: 0 }, 50_000),
        ],
        vec![],
    );
    carnivore_movement(&mut w);
    assert!(w.agents[1].alive);
    assert_eq!(w.agents[0].energy.value, 96_000);
    assert_eq!(w.agents[0].bird.speed, BASE_SPEED);
}

#[test]
fn two_hunters_one_prey_first_in_registry_wins() {
    let mut w = world(
        vec![
            carnivore(0, V2 { x: 10_000, y: 0 }, 50_000),
            carnivore(1, V2 { x: -10_000, y: 0 }, 50_000),
            herbivore(2, V2 { x: 0, y: 0 }, 50_000),
        ],
        vec![],
    );
    carnivore_movement(&mut w);
    assert_eq!(w.agents[0].energy.value, 60_000);
    // the second hunter found nothing left and reset to cruising speed
    assert_eq!(w.agents[1].energy.value, 50_000);
    assert_eq!(w.agents[1].bird.speed, BASE_SPEED);
    assert!(!w.agents[2].alive);
}

#[test]
fn boundary_agent_is_steered_toward_center() {
    // exactly at the east boundary, nobody else around
    let mut w = world(vec![herbivore(0, V2 { x: HALF_X, y: 0 }, 50_000)], vec![]);
    keep_birds_in_bounds(&mut w);
    let dd = w.agents[0].bird.desired_direction;
    assert_eq!(dd, V2 { x: -10_000, y: 0 });
    assert!(dd.x < 0);
}

#[test]
fn removal_twice_equals_removal_once() {
    let build = || {
        world(
            vec![herbivore(0, V2 { x: 0, y: 0 }, 50_000), herbivore(1, V2 { x: 5000, y: 0 }, 50_000)],
            vec![food(2, V2 { x: 0, y: 0 })],
        )
    };
    let mut once = build();
    once.remove_entity(1);
    let mut twice = build();
    twice.remove_entity(1);
    twice.remove_entity(1);
    assert_eq!(once.agents, twice.agents);
    assert_eq!(once.foods, twice.foods);
    assert!(!once.agents[1].alive);
    // a commit drains the mark exactly once
    once.commit_removals();
    twice.commit_removals();
    assert_eq!(once.agents, twice.agents);
    assert_eq!(once.agents.len(), 1);
}

#[test]
fn herbivore_eats_nearest_food_and_clamps() {
    // gain of 10 onto 94 clamps at the maximum of 100
    let mut w = world(
        vec![herbivore(0, V2 { x: 0, y: 0 }, 94_000)],
        vec![food(1, V2 { x: 10_000, y: 0 })],
    );
    herbivore_feed(&mut w);
    assert_eq!(w.agents[0].energy.value, 100_000);
    assert!(!w.foods[0].alive);
    // the foraging pull of weight 2.0 toward the food
    assert_eq!(w.agents[0].bird.desired_direction, V2 { x: 2000, y: 0 });
}

#[test]
fn sated_herbivore_skips_food() {
    // 95% of max skips foraging entirely
    let mut w = world(
        vec![herbivore(0, V2 { x: 0, y: 0 }, 95_000)],
        vec![food(1, V2 { x: 10_000, y: 0 })],
    );
    herbivore_feed(&mut w);
    assert_eq!(w.agents[0].energy.value, 95_000);
    assert!(w.foods[0].alive);
}

#[test]
fn distant_food_attracts_but_is_not_eaten() {
    // 50 units away: within vision 100, beyond capture range 20
    let mut w = world(
        vec![herbivore(0, V2 { x: 0, y: 0 }, 50_000)],
        vec![food(1, V2 { x: 50_000, y: 0 })],
    );
    herbivore_feed(&mut w);
    assert_eq!(w.agents[0].energy.value, 50_000);
    assert!(w.foods[0].alive);
    assert_eq!(w.agents[0].bird.desired_direction, V2 { x: 2000, y: 0 });
}

#[test]
fn herbivore_flees_visible_carnivore() {
    let mut w = world(
        vec![
            herbivore(0, V2 { x: 0, y: 0 }, 50_000),
            carnivore(1, V2 { x: 50_000, y: 0 }, 50_000),
        ],
        vec![],
    );
    herbivore_flee(&mut w);
    assert_eq!(w.agents[0].bird.desired_direction, V2 { x: -10_000, y: 0 });
    assert_eq!(w.agents[0].bird.speed, FLEE_SPEED);
}

#[test]
fn calm_herbivore_cruises() {
    // the carnivore is far outside the herbivore's vision
    let mut w = world(
        vec![
            herbivore(0, V2 { x: 0, y: 0 }, 50_000),
            carnivore(1, V2 { x: 500_000, y: 0 }, 50_000),
        ],
        vec![],
    );
    w.agents[0].bird.speed = FLEE_SPEED;
    herbivore_flee(&mut w);
    assert_eq!(w.agents[0].bird.speed, BASE_SPEED);
    assert_eq!(w.agents[0].bird.desired_direction, V2 { x: 0, y: 0 });
}

#[test]
fn flock_contributions_are_exact() {
    // two herbivores 10 units apart: separation dominates cohesion
    let mut w = world(
        vec![
            herbivore(0, V2 { x: 0, y: 0 }, 50_000),
            herbivore(1, V2 { x: 10_000, y: 0 }, 50_000),
        ],
        vec![],
    );
    herbivore_flock_movement(&mut w);
    // alignment (0,1000) + cohesion 0.1*(1000,0) + separation 5.0*(-1000,0)
    assert_eq!(w.agents[0].bird.desired_direction, V2 { x: -4900, y: 1000 });
    assert_eq!(w.agents[1].bird.desired_direction, V2 { x: 4900, y: 1000 });
}

#[test]
fn turning_is_bounded_by_rotation_speed() {
    let mut a = herbivore(0, V2 { x: 0, y: 0 }, 50_000);
    a.bird.desired_direction = V2 { x: 7000, y: 0 };
    let mut w = world(vec![a], vec![]);
    // rotation speed 1.0/s for 100 ms: blend fraction 100 of 1000
    move_birds_forward(&mut w, 100);
    assert_eq!(w.agents[0].heading, V2 { x: 100, y: 900 });
    // the stored desired direction is its normalized form
    assert_eq!(w.agents[0].bird.desired_direction, V2 { x: 1000, y: 0 });
}

#[test]
fn zero_desired_direction_keeps_heading() {
    let mut w = world(vec![herbivore(0, V2 { x: 0, y: 0 }, 50_000)], vec![]);
    move_birds_forward(&mut w, 1000);
    assert_eq!(w.agents[0].heading, V2 { x: 0, y: 1000 });
    assert_eq!(w.agents[0].pos, V2 { x: 0, y: 100_000 });
}

#[test]
fn drained_to_zero_dies_at_commit() {
    let mut w = world(vec![herbivore(0, V2 { x: 0, y: 0 }, 500)], vec![]);
    energy_drain(&mut w, 1000);
    assert_eq!(w.agents[0].energy.value, -500);
    zero_energy_dies(&mut w);
    assert!(!w.agents[0].alive);
    w.commit_removals();
    assert_eq!(w.agents.len(), 0);
}

#[test]
fn spawner_places_two_items_over_two_and_a_half_seconds() {
    let mut w = world(vec![], vec![]);
    w.spawner = HerbSpawnConfig { timer: Timer { elapsed_ms: 0, period_ms: 1000 } };
    for _ in 0..5 {
        birds::systems::spawn_herbs(&mut w, 500);
    }
    assert_eq!(w.foods.len(), 2);
    for f in &w.foods {
        assert_eq!(f.herb.value, HERB_VALUE);
        assert!(-HALF_X <= f.pos.x && f.pos.x < HALF_X);
        assert!(-HALF_Y <= f.pos.y && f.pos.y < HALF_Y);
    }
}

#[test]
fn setup_places_populations_within_bounds() {
    let w = setup(10, 5);
    assert_eq!(w.agents.len(), 11);
    assert_eq!(w.foods.len(), 5);
    for a in &w.agents[..10] {
        assert!(matches!(a.species, Species::Herbivore));
        assert!(-HALF_X <= a.pos.x && a.pos.x < HALF_X);
        assert!(-HALF_Y <= a.pos.y && a.pos.y < HALF_Y);
        assert_eq!(a.energy.value, START_ENERGY);
        assert_eq!(a.energy.max, MAX_ENERGY);
        assert_eq!(a.bird.desired_direction, a.heading);
        assert!(a.heading != V2 { x: 0, y: 0 });
    }
    let c = &w.agents[10];
    assert!(matches!(c.species, Species::Carnivore));
    assert_eq!(c.pos, V2 { x: 0, y: 0 });
    assert_eq!(w.next_id, 16);
    for f in &w.foods {
        assert!(-HALF_X <= f.pos.x && f.pos.x < HALF_X);
        assert!(-HALF_Y <= f.pos.y && f.pos.y < HALF_Y);
        assert_eq!(f.herb.value, HERB_VALUE);
    }
}

#[test]
fn energy_never_exceeds_max_over_many_ticks() {
    let mut w = setup(20, 10);
    for _ in 0..50 {
        advance(&mut w, 100);
        for a in &w.agents {
            assert!(a.energy.value <= a.energy.max);
            assert!(a.pos.x.abs() <= birds::POS_LIMIT && a.pos.y.abs() <= birds::POS_LIMIT);
        }
    }
}

#[test]
fn constructors_reject_bad_configuration() {
    assert!(Energy::new(5, -1).is_none());
    assert!(Energy::new(200, 100).is_none());
    assert!(Energy::new(50, 100).is_some());
    assert!(Bird::new(-1, 1000, 1000, V2 { x: 0, y: 0 }).is_none());
    assert!(Bird::new(100, 1000, -5, V2 { x: 0, y: 0 }).is_none());
    assert!(Bird::new(100, 1000, 100_000, V2 { x: 0, y: 0 }).is_some());
}

#[test]
fn reproduction_waits_for_threshold() {
    // 79% of max: below the 80% threshold, nothing happens
    let mut w = world(vec![herbivore(0, V2 { x: 0, y: 0 }, 79_000)], vec![]);
    spawn_herbivore_offspring(&mut w);
    assert_eq!(w.agents.len(), 1);
    assert_eq!(w.agents[0].energy.value, 79_000);
    // 80% exactly qualifies
    let mut w2 = world(vec![herbivore(0, V2 { x: 0, y: 0 }, 80_000)], vec![]);
    spawn_herbivore_offspring(&mut w2);
    assert_eq!(w2.agents.len(), 2);
    assert_eq!(w2.agents[0].energy.value, 40_000);
}
