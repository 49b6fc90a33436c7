//! The creature registry: what a creature of each type is born with.

use vstd::prelude::*;
use crate::colony::rng::{rng_draw, rng_step, Rng};
use crate::colony::types::{Ant, AntTrait, AntType, Position, TaskType};

verus! {

/// Time a young queen needs to mature: five minutes, in milliseconds.
pub const MATURATION_INTERVAL: u64 = 300_000;

/// Hit points, speed and attack damage of a creature of each type.
pub open spec fn ant_stats(ant_type: AntType) -> (u32, u32, u32) {
    match ant_type {
        AntType::Queen => (200, 500, 50),
        AntType::YoungQueen => (150, 4000, 15),
        AntType::Worker => (50, 4000, 5),
        AntType::RoyalWorker => (40, 500, 0),
        AntType::Soldier => (100, 3000, 20),
        AntType::Scout => (30, 6000, 10),
        AntType::Major => (150, 2000, 30),
    }
}

/// Jelly a creature of each type consumes per minute.
pub open spec fn jelly_consumption_rate(ant_type: AntType) -> u32 {
    match ant_type {
        AntType::Queen => 0,
        AntType::YoungQueen => 100,
        AntType::Worker => 100,
        AntType::RoyalWorker => 50,
        AntType::Soldier => 150,
        AntType::Scout => 80,
        AntType::Major => 200,
    }
}

/// The trait a creature of the given type is born with when the generator
/// draws `drawn`. Each type has its own pool; queens and royal workers have
/// none. The draw is first reduced to a percentage, which makes the early
/// entries of a pool a little more likely than the late ones.
pub open spec fn trait_for_roll(ant_type: AntType, drawn: u32) -> Option<AntTrait> {
    let roll = drawn % 100;
    match ant_type {
        AntType::Queen | AntType::RoyalWorker => None,
        AntType::YoungQueen => Some(
            if roll % 3 == 0 {
                AntTrait::Fertile
            } else if roll % 3 == 1 {
                AntTrait::Matriarch
            } else {
                AntTrait::Survivor
            },
        ),
        AntType::Worker => Some(
            if roll % 5 == 0 {
                AntTrait::Strong
            } else if roll % 5 == 1 {
                AntTrait::Swift
            } else if roll % 5 == 2 {
                AntTrait::Efficient
            } else if roll % 5 == 3 {
                AntTrait::Industrious
            } else {
                AntTrait::Pheromone
            },
        ),
        AntType::Soldier | AntType::Major => Some(
            if roll % 4 == 0 {
                AntTrait::AcidSpray
            } else if roll % 4 == 1 {
                AntTrait::Venomous
            } else if roll % 4 == 2 {
                AntTrait::Armored
            } else {
                AntTrait::Regenerator
            },
        ),
        AntType::Scout => Some(
            if roll % 4 == 0 {
                AntTrait::Swift
            } else if roll % 4 == 1 {
                AntTrait::Scout
            } else if roll % 4 == 2 {
                AntTrait::Climber
            } else {
                AntTrait::Pheromone
            },
        ),
    }
}

/// A creature at full health that carries nothing and was last fed at `now`.
pub open spec fn new_ant(
    id: u32,
    colony_id: u32,
    ant_type: AntType,
    position: Position,
    task: TaskType,
    target: Option<Position>,
    trait_type: Option<AntTrait>,
    maturation_time: Option<u64>,
    now: u64,
) -> Ant {
    Ant {
        id,
        colony_id,
        ant_type,
        position,
        health: ant_stats(ant_type).0,
        max_health: ant_stats(ant_type).0,
        carrying: None,
        task,
        target,
        speed: ant_stats(ant_type).1,
        attack_damage: ant_stats(ant_type).2,
        jelly_consumption_rate: jelly_consumption_rate(ant_type),
        last_fed_at: now,
        trait_type,
        maturation_time,
    }
}

/// The time from which a creature born at `now` may fly, if it is a young queen.
pub open spec fn maturation_deadline(ant_type: AntType, now: u64) -> Option<u64> {
    if ant_type == AntType::YoungQueen {
        Some(
            if now + MATURATION_INTERVAL > u64::MAX {
                u64::MAX
            } else {
                (now + MATURATION_INTERVAL) as u64
            },
        )
    } else {
        None
    }
}

/// Hit points, speed and attack damage of a creature of the given type.
pub fn get_ant_stats(ant_type: AntType) -> (stats: (u32, u32, u32))
    ensures
        stats == ant_stats(ant_type),
{
    match ant_type {
        AntType::Queen => (200, 500, 50),
        AntType::YoungQueen => (150, 4000, 15),
        AntType::Worker => (50, 4000, 5),
        AntType::RoyalWorker => (40, 500, 0),
        AntType::Soldier => (100, 3000, 20),
        AntType::Scout => (30, 6000, 10),
        AntType::Major => (150, 2000, 30),
    }
}

/// Jelly a creature of the given type consumes per minute.
pub fn get_jelly_consumption_rate(ant_type: AntType) -> (rate: u32)
    ensures
        rate == jelly_consumption_rate(ant_type),
{
    match ant_type {
        AntType::Queen => 0,
        AntType::YoungQueen => 100,
        AntType::Worker => 100,
        AntType::RoyalWorker => 50,
        AntType::Soldier => 150,
        AntType::Scout => 80,
        AntType::Major => 200,
    }
}

/// Draws one number and picks the trait a newborn of the given type gets.
pub fn generate_random_trait_for_type(rng: &mut Rng, ant_type: AntType) -> (picked: Option<
    AntTrait,
>)
    ensures
        picked == trait_for_roll(ant_type, rng_draw(old(rng).state)),
        final(rng).state == rng_step(old(rng).state),
{
    let roll: u32 = rng.next() % 100;
    match ant_type {
        AntType::Queen | AntType::RoyalWorker => None,
        AntType::YoungQueen => Some(
            if roll % 3 == 0 {
                AntTrait::Fertile
            } else if roll % 3 == 1 {
                AntTrait::Matriarch
            } else {
                AntTrait::Survivor
            },
        ),
        AntType::Worker => Some(
            if roll % 5 == 0 {
                AntTrait::Strong
            } else if roll % 5 == 1 {
                AntTrait::Swift
            } else if roll % 5 == 2 {
                AntTrait::Efficient
            } else if roll % 5 == 3 {
                AntTrait::Industrious
            } else {
                AntTrait::Pheromone
            },
        ),
        AntType::Soldier | AntType::Major => Some(
            if roll % 4 == 0 {
                AntTrait::AcidSpray
            } else if roll % 4 == 1 {
                AntTrait::Venomous
            } else if roll % 4 == 2 {
                AntTrait::Armored
            } else {
                AntTrait::Regenerator
            },
        ),
        AntType::Scout => Some(
            if roll % 4 == 0 {
                AntTrait::Swift
            } else if roll % 4 == 1 {
                AntTrait::Scout
            } else if roll % 4 == 2 {
                AntTrait::Climber
            } else {
                AntTrait::Pheromone
            },
        ),
    }
}

/// Builds a creature at full health that carries nothing.
pub fn make_ant(
    id: u32,
    colony_id: u32,
    ant_type: AntType,
    position: Position,
    task: TaskType,
    target: Option<Position>,
    trait_type: Option<AntTrait>,
    maturation_time: Option<u64>,
    now: u64,
) -> (ant: Ant)
    ensures
        ant == new_ant(
            id,
            colony_id,
            ant_type,
            position,
            task,
            target,
            trait_type,
            maturation_time,
            now,
        ),
{
    let (health, speed, damage) = get_ant_stats(ant_type);
    Ant {
        id,
        colony_id,
        ant_type,
        position,
        health,
        max_health: health,
        carrying: None,
        task,
        target,
        speed,
        attack_damage: damage,
        jelly_consumption_rate: get_jelly_consumption_rate(ant_type),
        last_fed_at: now,
        trait_type,
        maturation_time,
    }
}

/// The time from which a creature born at `now` may fly, if it is a young
/// queen; the deadline stops at the end of the clock.
pub fn deadline_for(ant_type: AntType, now: u64) -> (deadline: Option<u64>)
    ensures
        deadline == maturation_deadline(ant_type, now),
{
    if ant_type == AntType::YoungQueen {
        Some(now.saturating_add(MATURATION_INTERVAL))
    } else {
        None
    }
}

} // verus!
