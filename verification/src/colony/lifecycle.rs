//! Birth and death of creatures.

use vstd::prelude::*;
use crate::colony::registry::{
    generate_random_trait_for_type, make_ant, new_ant, trait_for_roll,
};
use crate::colony::rng::{rng_draw, rng_step};
use crate::colony::types::{Ant, AntType, Colony, Position, TaskType};
use crate::colony::world::{lemma_bounded_push, lemma_count_remove, live_count, World, WorldView};

verus! {

/// The creature that hatches next in state `s`: it takes the next
/// identifier, and the generator's next draw picks its trait.
pub open spec fn hatchling(
    s: WorldView,
    colony_id: u32,
    ant_type: AntType,
    position: Position,
    task: TaskType,
    target: Option<Position>,
    maturation_time: Option<u64>,
    now: u64,
) -> Ant {
    new_ant(
        s.ants.next_id,
        colony_id,
        ant_type,
        position,
        task,
        target,
        trait_for_roll(ant_type, rng_draw(s.rng)),
        maturation_time,
        now,
    )
}

/// The state after a creature has hatched. No ledger changes.
pub open spec fn hatched(
    s: WorldView,
    colony_id: u32,
    ant_type: AntType,
    position: Position,
    task: TaskType,
    target: Option<Position>,
    maturation_time: Option<u64>,
    now: u64,
) -> WorldView {
    WorldView {
        ants: s.ants.insert(
            hatchling(s, colony_id, ant_type, position, task, target, maturation_time, now),
        ),
        rng: rng_step(s.rng),
        ..s
    }
}

/// The colony's population after one death: one less, but never below zero.
pub open spec fn after_death(colony: Colony) -> Colony {
    Colony {
        population: if colony.population == 0 {
            0
        } else {
            (colony.population - 1) as u32
        },
        ..colony
    }
}

/// The state after creature `ant_id` is gone: its record is deleted, and its
/// colony, if that still exists, records one creature less.
pub open spec fn buried(s: WorldView, ant_id: u32) -> WorldView {
    let colony_id = s.ants.get(ant_id).colony_id;
    WorldView {
        ants: s.ants.delete(ant_id),
        colonies: if s.colonies.contains(colony_id) {
            s.colonies.update(after_death(s.colonies.get(colony_id)))
        } else {
            s.colonies
        },
        ..s
    }
}

/// Hatches a creature into colony `colony_id`, whose identifier must have
/// been handed out, and returns the creature's identifier.
pub fn hatch(
    world: &mut World,
    colony_id: u32,
    ant_type: AntType,
    position: Position,
    task: TaskType,
    target: Option<Position>,
    maturation_time: Option<u64>,
    now: u64,
) -> (id: u32)
    requires
        old(world)@.wf(),
        !old(world)@.ants.is_full(),
        colony_id < old(world)@.colonies.next_id,
    ensures
        final(world)@.wf(),
        id == old(world)@.ants.next_id,
        final(world)@ == hatched(
            old(world)@,
            colony_id,
            ant_type,
            position,
            task,
            target,
            maturation_time,
            now,
        ),
{
    let ghost before = world@;
    let trait_type = generate_random_trait_for_type(&mut world.rng, ant_type);
    let id = world.ants.next_id;
    let ant = make_ant(
        id,
        colony_id,
        ant_type,
        position,
        task,
        target,
        trait_type,
        maturation_time,
        now,
    );
    world.ants.insert(ant);
    proof {
        lemma_bounded_push(before.colonies.rows, before.ants.rows, ant);
    }
    id
}

/// Deletes the creature in position `at` and lowers the recorded population
/// of its colony.
pub fn bury(world: &mut World, at: usize)
    requires
        old(world)@.wf(),
        at < old(world).ants.rows.len(),
    ensures
        final(world)@.wf(),
        final(world)@ == buried(old(world)@, old(world).ants.rows[at as int].id),
{
    let ghost before = world@;
    let ant = world.ants.remove(at);
    match world.colonies.find(ant.colony_id) {
        Some(c) => {
            let colony = world.colonies.rows[c];
            let population = if colony.population == 0 {
                0
            } else {
                colony.population - 1
            };
            world.colonies.replace(c, Colony { population, ..colony });
            proof {
                assert forall|i: int| 0 <= i < world@.colonies.rows.len() implies (
                #[trigger] world@.colonies.rows[i]).population <= live_count(
                    world@.ants.rows,
                    world@.colonies.rows[i].id,
                ) by {
                    let id = before.colonies.rows[i].id;
                    lemma_count_remove(before.ants.rows, at as int, id);
                }
            }
        },
        None => {
            proof {
                assert forall|i: int| 0 <= i < world@.colonies.rows.len() implies (
                #[trigger] world@.colonies.rows[i]).population <= live_count(
                    world@.ants.rows,
                    world@.colonies.rows[i].id,
                ) by {
                    let id = before.colonies.rows[i].id;
                    lemma_count_remove(before.ants.rows, at as int, id);
                }
            }
        },
    }
}

} // verus!
