//! Laying larvae and raising them into creatures.

use vstd::prelude::*;
use crate::colony::economy::{
    affordable, after_cost, ant_charge, ant_price, apply_cost, charge_for_ant, first_shortage,
    price_of_ant, shortage, LARVA_JELLY,
};
use crate::colony::lifecycle::{hatch, hatched};
use crate::colony::registry::{deadline_for, maturation_deadline};
use crate::colony::types::{AntType, Colony, Position, TaskType};
use crate::colony::world::{
    check_colony, lemma_bounded_birth, lemma_count_bound, store_colony, World, WorldView,
};
use crate::error::{CommandError, Entity, Shortage};
use crate::identity::Context;

verus! {

// ----- spawn_larva -----

/// Why laying a larva is turned down: the first test that fails, in the
/// order given here. `None` means it goes ahead.
pub open spec fn spawn_larva_check(s: WorldView, ctx: Context, queen_id: u32) -> Option<
    CommandError,
> {
    if !s.ants.contains(queen_id) {
        Some(CommandError::NotFound(Entity::Ant))
    } else if s.ants.get(queen_id).ant_type != AntType::Queen {
        Some(CommandError::InvalidState)
    } else if s.colony_check(ctx, s.ants.get(queen_id).colony_id) is Some {
        s.colony_check(ctx, s.ants.get(queen_id).colony_id)
    } else {
        let colony = s.colonies.get(s.ants.get(queen_id).colony_id);
        if colony.queen_jelly < LARVA_JELLY {
            Some(CommandError::InsufficientResources(Shortage::Jelly))
        } else if colony.larvae == u32::MAX {
            Some(CommandError::Exhausted)
        } else {
            None
        }
    }
}

/// One larva more, half a unit of jelly less.
pub open spec fn spawn_larva_next(s: WorldView, queen_id: u32) -> WorldView {
    let colony = s.colonies.get(s.ants.get(queen_id).colony_id);
    WorldView {
        colonies: s.colonies.update(
            Colony {
                queen_jelly: (colony.queen_jelly - LARVA_JELLY) as u64,
                larvae: (colony.larvae + 1) as u32,
                ..colony
            },
        ),
        ..s
    }
}

// ----- feed_larva and spawn_ant -----

/// The state after colony `colony_id` has raised a creature of the given
/// type: the colony has paid, counts one creature more, and the creature
/// stands idle at `position`. A young queen gets her maturation deadline.
pub open spec fn raised(
    s: WorldView,
    colony_id: u32,
    ant_type: AntType,
    position: Position,
    now: u64,
) -> WorldView {
    let colony = s.colonies.get(colony_id);
    let paid = after_cost(colony, ant_charge(colony, ant_type));
    let born = hatched(
        s,
        colony_id,
        ant_type,
        position,
        TaskType::Idle,
        None,
        maturation_deadline(ant_type, now),
        now,
    );
    WorldView {
        colonies: s.colonies.update(
            Colony { population: (colony.population + 1) as u32, ..paid },
        ),
        ..born
    }
}

/// Why feeding a larva is turned down: the first test that fails, in the
/// order given here. `None` means it goes ahead.
pub open spec fn feed_larva_check(
    s: WorldView,
    ctx: Context,
    colony_id: u32,
    ant_type: AntType,
) -> Option<CommandError> {
    if s.colony_check(ctx, colony_id) is Some {
        s.colony_check(ctx, colony_id)
    } else {
        let colony = s.colonies.get(colony_id);
        if colony.larvae < 1 {
            Some(CommandError::InsufficientResources(Shortage::Larvae))
        } else if ant_type == AntType::Queen {
            Some(CommandError::InvalidState)
        } else if first_shortage(colony, ant_price(ant_type)->0) is Some {
            Some(
                CommandError::InsufficientResources(
                    first_shortage(colony, ant_price(ant_type)->0)->0,
                ),
            )
        } else if s.ants.is_full() {
            Some(CommandError::Exhausted)
        } else {
            None
        }
    }
}

/// Why spawning a worker is turned down: the first test that fails, in the
/// order given here. `None` means it goes ahead.
pub open spec fn spawn_ant_check(
    s: WorldView,
    ctx: Context,
    colony_id: u32,
    ant_type: AntType,
) -> Option<CommandError> {
    if s.colony_check(ctx, colony_id) is Some {
        s.colony_check(ctx, colony_id)
    } else {
        let colony = s.colonies.get(colony_id);
        if ant_type == AntType::Queen {
            Some(CommandError::InvalidState)
        } else if first_shortage(colony, ant_price(ant_type)->0) is Some {
            Some(
                CommandError::InsufficientResources(
                    first_shortage(colony, ant_price(ant_type)->0)->0,
                ),
            )
        } else if ant_type != AntType::Worker {
            Some(CommandError::InvalidState)
        } else if s.ants.is_full() {
            Some(CommandError::Exhausted)
        } else {
            None
        }
    }
}

/// The queen lays one larva for half a unit of jelly.
pub fn spawn_larva(world: &mut World, ctx: Context, queen_id: u32) -> (done: Result<
    (),
    CommandError,
>)
    requires
        old(world)@.wf(),
    ensures
        final(world)@.wf(),
        match spawn_larva_check(old(world)@, ctx, queen_id) {
            Some(e) => done == Err::<(), CommandError>(e) && final(world)@ == old(world)@,
            None => done == Ok::<(), CommandError>(()) && final(world)@ == spawn_larva_next(
                old(world)@,
                queen_id,
            ),
        },
{
    let qi = match world.ants.find(queen_id) {
        Some(i) => i,
        None => {
            return Err(CommandError::NotFound(Entity::Ant));
        },
    };
    let queen = world.ants.rows[qi];
    if queen.ant_type != AntType::Queen {
        return Err(CommandError::InvalidState);
    }
    let ci = match check_colony(world, ctx, queen.colony_id) {
        Ok(i) => i,
        Err(e) => {
            return Err(e);
        },
    };
    let colony = world.colonies.rows[ci];
    if colony.queen_jelly < LARVA_JELLY {
        return Err(CommandError::InsufficientResources(Shortage::Jelly));
    }
    if colony.larvae == u32::MAX {
        return Err(CommandError::Exhausted);
    }
    store_colony(
        world,
        ci,
        Colony {
            queen_jelly: colony.queen_jelly - LARVA_JELLY,
            larvae: colony.larvae + 1,
            ..colony
        },
    );
    Ok(())
}

/// Raises a creature for the colony in position `at` and returns its
/// identifier.
pub fn raise(world: &mut World, at: usize, ant_type: AntType, position: Position, now: u64) -> (id:
    u32)
    requires
        old(world)@.wf(),
        at < old(world).colonies.rows.len(),
        ant_type != AntType::Queen,
        affordable(old(world).colonies.rows[at as int], ant_price(ant_type)->0),
        !old(world)@.ants.is_full(),
    ensures
        final(world)@.wf(),
        id == old(world)@.ants.next_id,
        final(world)@ == raised(
            old(world)@,
            old(world).colonies.rows[at as int].id,
            ant_type,
            position,
            now,
        ),
{
    let ghost before = world@;
    let colony = world.colonies.rows[at];
    proof {
        before.ants.lemma_len_bound();
        lemma_count_bound(before.ants.rows, colony.id);
    }
    let charge = charge_for_ant(&colony, ant_type);
    let mut paid = colony;
    apply_cost(&mut paid, &charge);
    paid.population = colony.population + 1;
    let id = hatch(
        world,
        colony.id,
        ant_type,
        position,
        TaskType::Idle,
        None,
        deadline_for(ant_type, now),
        now,
    );
    let ghost born = world@;
    world.colonies.replace(at, paid);
    proof {
        lemma_bounded_birth(
            before.colonies.rows,
            before.ants.rows,
            at as int,
            paid,
            born.ants.rows.last(),
        );
    }
    id
}

/// Turns one larva of the colony into a creature of the given type at
/// (`x`, `y`, `z`). Returns the creature's identifier.
pub fn feed_larva(
    world: &mut World,
    ctx: Context,
    colony_id: u32,
    ant_type: AntType,
    x: i32,
    y: i32,
    z: i32,
) -> (done: Result<u32, CommandError>)
    requires
        old(world)@.wf(),
    ensures
        final(world)@.wf(),
        match feed_larva_check(old(world)@, ctx, colony_id, ant_type) {
            Some(e) => done == Err::<u32, CommandError>(e) && final(world)@ == old(world)@,
            None => done == Ok::<u32, CommandError>(old(world)@.ants.next_id) && final(world)@
                == raised(
                old(world)@,
                colony_id,
                ant_type,
                Position { x, y, z },
                ctx.timestamp,
            ),
        },
{
    let ci = match check_colony(world, ctx, colony_id) {
        Ok(i) => i,
        Err(e) => {
            return Err(e);
        },
    };
    let colony = world.colonies.rows[ci];
    if colony.larvae < 1 {
        return Err(CommandError::InsufficientResources(Shortage::Larvae));
    }
    let price = match price_of_ant(ant_type) {
        Some(price) => price,
        None => {
            return Err(CommandError::InvalidState);
        },
    };
    match shortage(&colony, &price) {
        Some(short) => {
            return Err(CommandError::InsufficientResources(short));
        },
        None => {},
    }
    if !world.ants.has_room() {
        return Err(CommandError::Exhausted);
    }
    Ok(raise(world, ci, ant_type, Position { x, y, z }, ctx.timestamp))
}

/// Raises a worker the direct way. Other types are turned down: they are
/// raised by feeding a larva.
pub fn spawn_ant(
    world: &mut World,
    ctx: Context,
    colony_id: u32,
    ant_type: AntType,
    x: i32,
    y: i32,
    z: i32,
) -> (done: Result<u32, CommandError>)
    requires
        old(world)@.wf(),
    ensures
        final(world)@.wf(),
        match spawn_ant_check(old(world)@, ctx, colony_id, ant_type) {
            Some(e) => done == Err::<u32, CommandError>(e) && final(world)@ == old(world)@,
            None => done == Ok::<u32, CommandError>(old(world)@.ants.next_id) && final(world)@
                == raised(
                old(world)@,
                colony_id,
                AntType::Worker,
                Position { x, y, z },
                ctx.timestamp,
            ),
        },
{
    let ci = match check_colony(world, ctx, colony_id) {
        Ok(i) => i,
        Err(e) => {
            return Err(e);
        },
    };
    let colony = world.colonies.rows[ci];
    let price = match price_of_ant(ant_type) {
        Some(price) => price,
        None => {
            return Err(CommandError::InvalidState);
        },
    };
    match shortage(&colony, &price) {
        Some(short) => {
            return Err(CommandError::InsufficientResources(short));
        },
        None => {},
    }
    if ant_type != AntType::Worker {
        return Err(CommandError::InvalidState);
    }
    if !world.ants.has_room() {
        return Err(CommandError::Exhausted);
    }
    Ok(raise(world, ci, ant_type, Position { x, y, z }, ctx.timestamp))
}

} // verus!
