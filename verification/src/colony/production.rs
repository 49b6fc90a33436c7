//! Turning food into jelly, and bringing gathered resources home.

use vstd::prelude::*;
use crate::colony::economy::{credit, credited, CONVERSION_FOOD, CONVERSION_JELLY};
use crate::colony::geometry::{closer_than, is_closer_than};
use crate::colony::types::{
    Ant, AntType, Cargo, Chamber, ChamberType, Colony, PlayerView, Position, ResourceType,
    TaskType,
};
use crate::colony::world::{
    check_ant, check_colony, find_player, has_player, player_index, store_ant, store_colony,
    World, WorldView,
};
use crate::error::{CommandError, Entity, Shortage};
use crate::identity::Context;

verus! {

/// A royal worker makes jelly only less than this far from a burrow: ten
/// world units.
pub const BURROW_RANGE: u32 = 10_000;

/// `chamber` is a burrow of colony `colony_id` within reach of `position`.
pub open spec fn shelters(chamber: Chamber, colony_id: u32, position: Position) -> bool {
    chamber.colony_id == colony_id && chamber.chamber_type == ChamberType::Burrow && closer_than(
        position,
        chamber.position,
        BURROW_RANGE as int,
    )
}

/// `position` is within reach of a burrow of colony `colony_id`.
pub open spec fn in_burrow(s: WorldView, colony_id: u32, position: Position) -> bool {
    exists|i: int|
        0 <= i < s.chambers.rows.len() && shelters(
            #[trigger] s.chambers.rows[i],
            colony_id,
            position,
        )
}

/// Why making jelly is turned down: the first test that fails, in the
/// order given here. `None` means it goes ahead.
pub open spec fn produce_jelly_check(s: WorldView, ctx: Context, ant_id: u32) -> Option<
    CommandError,
> {
    if !s.ants.contains(ant_id) {
        Some(CommandError::NotFound(Entity::Ant))
    } else if s.ants.get(ant_id).ant_type != AntType::RoyalWorker {
        Some(CommandError::InvalidState)
    } else if s.colony_check(ctx, s.ants.get(ant_id).colony_id) is Some {
        s.colony_check(ctx, s.ants.get(ant_id).colony_id)
    } else {
        let ant = s.ants.get(ant_id);
        if !in_burrow(s, ant.colony_id, ant.position) {
            Some(CommandError::OutOfRange)
        } else if s.colonies.get(ant.colony_id).food < CONVERSION_FOOD {
            Some(CommandError::InsufficientResources(Shortage::Food))
        } else {
            None
        }
    }
}

/// Five units of food become two and a half units of jelly.
pub open spec fn produce_jelly_next(s: WorldView, ant_id: u32) -> WorldView {
    let colony = s.colonies.get(s.ants.get(ant_id).colony_id);
    WorldView {
        colonies: s.colonies.update(
            Colony {
                food: (colony.food - CONVERSION_FOOD) as u64,
                queen_jelly: credited(colony.queen_jelly, CONVERSION_JELLY),
                ..colony
            },
        ),
        ..s
    }
}

/// Whole units in an amount, as far as a 32-bit counter can hold them.
pub open spec fn whole_units(amount: u64) -> u32 {
    if amount / 1000 > u32::MAX {
        u32::MAX
    } else {
        (amount / 1000) as u32
    }
}

/// A larva count raised by `more`, stopping at the counter's limit.
pub open spec fn more_larvae(larvae: u32, more: u32) -> u32 {
    if larvae + more > u32::MAX {
        u32::MAX
    } else {
        (larvae + more) as u32
    }
}

/// The colony's ledger once `cargo` is unloaded into it. Larvae are counted
/// whole.
pub open spec fn unloaded(colony: Colony, cargo: Cargo) -> Colony {
    match cargo.resource {
        ResourceType::Food => Colony { food: credited(colony.food, cargo.amount), ..colony },
        ResourceType::Water => Colony { water: credited(colony.water, cargo.amount), ..colony },
        ResourceType::Minerals => Colony {
            minerals: credited(colony.minerals, cargo.amount),
            ..colony
        },
        ResourceType::Larvae => Colony {
            larvae: more_larvae(colony.larvae, whole_units(cargo.amount)),
            ..colony
        },
    }
}

/// Why a deposit is turned down: the first test that fails, in the
/// order given here. `None` means it goes ahead.
pub open spec fn deposit_resources_check(s: WorldView, ctx: Context, ant_id: u32) -> Option<
    CommandError,
> {
    if s.ant_check(ctx, ant_id) is Some {
        s.ant_check(ctx, ant_id)
    } else if s.ants.get(ant_id).carrying is Some && !has_player(s.players, ctx.sender) {
        Some(CommandError::NotFound(Entity::Player))
    } else {
        None
    }
}

/// A creature that carries nothing changes nothing. Otherwise its cargo
/// goes into the colony's ledger, the whole units of it count towards the
/// owner's gathered resources, and the creature stands idle with empty
/// hands.
pub open spec fn deposit_resources_next(s: WorldView, ctx: Context, ant_id: u32) -> WorldView {
    let ant = s.ants.get(ant_id);
    match ant.carrying {
        None => s,
        Some(cargo) => {
            let i = player_index(s.players, ctx.sender);
            WorldView {
                colonies: s.colonies.update(unloaded(s.colonies.get(ant.colony_id), cargo)),
                players: s.players.update(
                    i,
                    PlayerView {
                        resources_gathered: credited(
                            s.players[i].resources_gathered,
                            cargo.amount / 1000,
                        ),
                        ..s.players[i]
                    },
                ),
                ants: s.ants.update(Ant { carrying: None, task: TaskType::Idle, ..ant }),
                ..s
            }
        },
    }
}

fn is_in_burrow(world: &World, colony_id: u32, position: Position) -> (found: bool)
    ensures
        found == in_burrow(world@, colony_id, position),
{
    let mut i: usize = 0;
    while i < world.chambers.rows.len()
        invariant
            i <= world.chambers.rows.len(),
            forall|k: int|
                0 <= k < i ==> !shelters(#[trigger] world@.chambers.rows[k], colony_id, position),
        decreases world.chambers.rows.len() - i,
    {
        let chamber = &world.chambers.rows[i];
        if chamber.colony_id == colony_id && chamber.chamber_type == ChamberType::Burrow
            && is_closer_than(position, chamber.position, BURROW_RANGE) {
            return true;
        }
        i += 1;
    }
    false
}

/// Has royal worker `ant_id` turn five units of its colony's food into two
/// and a half units of jelly. It must stand within reach of a burrow.
pub fn produce_jelly(world: &mut World, ctx: Context, ant_id: u32) -> (done: Result<
    (),
    CommandError,
>)
    requires
        old(world)@.wf(),
    ensures
        final(world)@.wf(),
        match produce_jelly_check(old(world)@, ctx, ant_id) {
            Some(e) => done == Err::<(), CommandError>(e) && final(world)@ == old(world)@,
            None => done == Ok::<(), CommandError>(()) && final(world)@ == produce_jelly_next(
                old(world)@,
                ant_id,
            ),
        },
{
    let ai = match world.ants.find(ant_id) {
        Some(i) => i,
        None => {
            return Err(CommandError::NotFound(Entity::Ant));
        },
    };
    let ant = world.ants.rows[ai];
    if ant.ant_type != AntType::RoyalWorker {
        return Err(CommandError::InvalidState);
    }
    let ci = match check_colony(world, ctx, ant.colony_id) {
        Ok(i) => i,
        Err(e) => {
            return Err(e);
        },
    };
    let colony = world.colonies.rows[ci];
    if !is_in_burrow(world, ant.colony_id, ant.position) {
        return Err(CommandError::OutOfRange);
    }
    if colony.food < CONVERSION_FOOD {
        return Err(CommandError::InsufficientResources(Shortage::Food));
    }
    store_colony(
        world,
        ci,
        Colony {
            food: colony.food - CONVERSION_FOOD,
            queen_jelly: credit(colony.queen_jelly, CONVERSION_JELLY),
            ..colony
        },
    );
    Ok(())
}

fn unload(colony: Colony, cargo: Cargo) -> (after: Colony)
    ensures
        after == unloaded(colony, cargo),
{
    match cargo.resource {
        ResourceType::Food => Colony { food: credit(colony.food, cargo.amount), ..colony },
        ResourceType::Water => Colony { water: credit(colony.water, cargo.amount), ..colony },
        ResourceType::Minerals => Colony {
            minerals: credit(colony.minerals, cargo.amount),
            ..colony
        },
        ResourceType::Larvae => {
            let whole: u64 = cargo.amount / 1000;
            let more: u32 = if whole > u32::MAX as u64 {
                u32::MAX
            } else {
                whole as u32
            };
            Colony { larvae: colony.larvae.saturating_add(more), ..colony }
        },
    }
}

/// Unloads what creature `ant_id` carries into its colony's ledger.
pub fn deposit_resources(world: &mut World, ctx: Context, ant_id: u32) -> (done: Result<
    (),
    CommandError,
>)
    requires
        old(world)@.wf(),
    ensures
        final(world)@.wf(),
        match deposit_resources_check(old(world)@, ctx, ant_id) {
            Some(e) => done == Err::<(), CommandError>(e) && final(world)@ == old(world)@,
            None => done == Ok::<(), CommandError>(()) && final(world)@
                == deposit_resources_next(old(world)@, ctx, ant_id),
        },
{
    let (ai, ci) = match check_ant(world, ctx, ant_id) {
        Ok(found) => found,
        Err(e) => {
            return Err(e);
        },
    };
    let ant = world.ants.rows[ai];
    let cargo = match ant.carrying {
        Some(cargo) => cargo,
        None => {
            return Ok(());
        },
    };
    let pi = match find_player(world, ctx.sender) {
        Some(i) => i,
        None => {
            return Err(CommandError::NotFound(Entity::Player));
        },
    };
    let ghost before = world@;
    let colony = world.colonies.rows[ci];
    store_colony(world, ci, unload(colony, cargo));
    let mut player = world.players.remove(pi);
    player.resources_gathered = credit(player.resources_gathered, cargo.amount / 1000);
    world.players.insert(pi, player);
    proof {
        assert forall|a: int, b: int| 0 <= a < b < world@.players.len() implies (
        #[trigger] world@.players[a]).id != (#[trigger] world@.players[b]).id by {
            assert(world@.players[a].id == before.players[a].id);
            assert(world@.players[b].id == before.players[b].id);
        }
    }
    store_ant(world, ai, Ant { carrying: None, task: TaskType::Idle, ..ant });
    Ok(())
}

} // verus!
