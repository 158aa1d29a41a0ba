//! A predator-prey flocking simulation: herbivore and carnivore birds steer
//! by separation, cohesion and alignment, forage, flee, hunt, reproduce and
//! die under an energy economy, on a fixed-point integer world model.
//!
//! All lengths, energies and direction components are held in milli-units:
//! the integer 1000 stands for 1.0. One simulation tick advances the world
//! by an elapsed time given in milliseconds.
#![allow(unused_imports)]
use vstd::prelude::*;

pub mod components;
pub mod movement;
pub mod rng;
pub mod systems;
pub mod registry;
pub mod vec2;

verus! {

/// World extents in milli-units (1800 by 900 world units).
pub const BOUNDS_X: i64 = 1_800_000;
/// See `BOUNDS_X`.
pub const BOUNDS_Y: i64 = 900_000;
/// Half of `BOUNDS_X`: the containment threshold on the x axis.
pub const HALF_X: i64 = 900_000;
/// Half of `BOUNDS_Y`: the containment threshold on the y axis.
pub const HALF_Y: i64 = 450_000;
/// Number of herbivores placed at world initialization.
pub const BIRDS_TO_SPAWN: usize = 100;
/// Number of food items placed at world initialization.
pub const HERBS_TO_SPAWN: usize = 100;

/// Positions are clamped to this magnitude per axis: a numeric safety rail
/// far beyond the world bounds, which containment steering approaches long
/// before the rail matters.
pub const POS_LIMIT: i64 = 1_000_000_000;
/// Largest accepted speed, in world units per second.
pub const SPEED_LIMIT: i64 = 1_000_000;
/// Largest accepted turn rate, in milli-turn-fractions per second.
pub const ROT_LIMIT: i64 = 1_000_000;
/// Largest accepted vision radius, in milli-units.
pub const VISION_LIMIT: i64 = 1_000_000_000;
/// Largest accepted energy maximum, in milli-energy.
pub const ENERGY_LIMIT: i64 = 1_000_000_000_000;
/// Energy never drains below this terminal marker; death triggers at zero,
/// far above it.
pub const ENERGY_FLOOR: i64 = -1_000_000_000_000;
/// Hard capacity of the registry: spawns are refused beyond it.
pub const POP_LIMIT: usize = 1_000_000;
/// Largest accepted tick delta, in milliseconds.
pub const DT_LIMIT: i64 = 1_000_000;
/// Largest accepted timer period, in milliseconds.
pub const PERIOD_LIMIT: i64 = 1_000_000_000;

/// Consumption happens within this distance (milli-units, 20 world units).
pub const CAPTURE_RANGE: i64 = 20_000;
/// Squared capture distance.
pub const CAPTURE_RANGE_SQ: i64 = 400_000_000;
/// Separation only counts neighbors closer than this (squared, in milli).
pub const SEPARATION_RANGE_SQ: i64 = 400_000_000;

/// Steering weights, in milli-units (1000 stands for weight 1.0).
pub const W_ALIGNMENT: i64 = 1000;
/// See `W_ALIGNMENT`; cohesion pulls weakly toward the flock centroid.
pub const W_COHESION: i64 = 100;
/// See `W_ALIGNMENT`; separation pushes strongly away from close neighbors.
pub const W_SEPARATION: i64 = 5000;
/// See `W_ALIGNMENT`; foraging attraction toward the nearest food item.
pub const W_FORAGE: i64 = 2000;
/// See `W_ALIGNMENT`; flight away from the nearest carnivore.
pub const W_FLEE: i64 = 10_000;
/// See `W_ALIGNMENT`; containment back toward the world center.
pub const W_CONTAIN: i64 = 10_000;

/// How far ahead of a fleeing herbivore a carnivore aims (milli-units).
pub const PREDICT_AHEAD: i64 = 10_000;
/// Offspring appear this far behind the parent (milli-units).
pub const OFFSPRING_BACK: i64 = 10_000;

/// Cruising speed, world units per second.
pub const BASE_SPEED: i64 = 100;
/// Speed of a herbivore that sees a carnivore.
pub const FLEE_SPEED: i64 = 150;
/// Speed of a carnivore that is hunting.
pub const HUNT_SPEED: i64 = 175;
/// Herbivore turn rate, milli-fraction of the remaining turn per second.
pub const HERB_ROT_SPEED: i64 = 1000;
/// Carnivore turn rate.
pub const CARN_ROT_SPEED: i64 = 1500;
/// Herbivore vision radius, milli-units.
pub const HERB_VISION: i64 = 100_000;
/// Carnivore vision radius, milli-units.
pub const CARN_VISION: i64 = 150_000;

/// Energy granted by one food item, milli-energy.
pub const HERB_VALUE: i64 = 10_000;
/// Energy a carnivore gains per captured herbivore, milli-energy.
pub const KILL_GAIN: i64 = 10_000;
/// Energy of a freshly placed agent, milli-energy.
pub const START_ENERGY: i64 = 50_000;
/// Energy capacity of the initial agents, milli-energy.
pub const MAX_ENERGY: i64 = 100_000;
/// Fixed energy of a herbivore offspring, milli-energy.
pub const OFFSPRING_ENERGY: i64 = 50_000;
/// Food spawner period, milliseconds.
pub const HERB_SPAWN_PERIOD_MS: i64 = 1000;

} // verus!
