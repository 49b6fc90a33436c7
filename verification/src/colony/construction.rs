//! Chambers and tunnels.

use vstd::prelude::*;
use crate::colony::economy::{
    after_cost, apply_cost, capacity_of_chamber, chamber_capacity, chamber_price,
    first_shortage, price_of_chamber, shortage,
};
use crate::colony::geometry::{closer_than, is_closer_than};
use crate::colony::types::{Ant, AntType, Chamber, ChamberType, Position, Tunnel};
use crate::colony::world::{check_ant, check_colony, store_colony, World, WorldView};
use crate::error::CommandError;
use crate::identity::Context;

verus! {

/// Width of every tunnel: two world units.
pub const TUNNEL_WIDTH: u32 = 2000;

/// A worker digs only if it stands less than this far from the tunnel's
/// start: ten world units.
pub const DIG_RANGE: u32 = 10_000;

/// Who may build what: a queen builds burrows and nothing else, a worker
/// builds everything but burrows, and nobody else builds.
pub open spec fn may_build(ant_type: AntType, chamber_type: ChamberType) -> bool {
    match ant_type {
        AntType::Queen => chamber_type == ChamberType::Burrow,
        AntType::Worker => chamber_type != ChamberType::Burrow,
        _ => false,
    }
}

/// Why building a chamber is turned down: the first test that fails, in the
/// order given here. `None` means it goes ahead.
pub open spec fn build_chamber_check(
    s: WorldView,
    ctx: Context,
    ant_id: u32,
    chamber_type: ChamberType,
) -> Option<CommandError> {
    if s.ant_check(ctx, ant_id) is Some {
        s.ant_check(ctx, ant_id)
    } else {
        let ant = s.ants.get(ant_id);
        let colony = s.colonies.get(ant.colony_id);
        if !may_build(ant.ant_type, chamber_type) {
            Some(CommandError::InvalidState)
        } else if first_shortage(colony, chamber_price(chamber_type)) is Some {
            Some(
                CommandError::InsufficientResources(
                    first_shortage(colony, chamber_price(chamber_type))->0,
                ),
            )
        } else if s.chambers.is_full() {
            Some(CommandError::Exhausted)
        } else {
            None
        }
    }
}

/// The colony has paid the chamber's price, and the chamber stands at
/// `position` at level 1.
pub open spec fn build_chamber_next(
    s: WorldView,
    ant_id: u32,
    chamber_type: ChamberType,
    position: Position,
) -> WorldView {
    let colony = s.colonies.get(s.ants.get(ant_id).colony_id);
    WorldView {
        colonies: s.colonies.update(after_cost(colony, chamber_price(chamber_type))),
        chambers: s.chambers.insert(
            Chamber {
                id: s.chambers.next_id,
                colony_id: colony.id,
                chamber_type,
                position,
                level: 1,
                capacity: chamber_capacity(chamber_type),
            },
        ),
        ..s
    }
}

/// `ant` is a worker of colony `colony_id` close enough to `start` to dig.
pub open spec fn can_dig(ant: Ant, colony_id: u32, start: Position) -> bool {
    ant.colony_id == colony_id && ant.ant_type == AntType::Worker && closer_than(
        ant.position,
        start,
        DIG_RANGE as int,
    )
}

/// Some worker of colony `colony_id` can dig at `start`.
pub open spec fn digger_nearby(s: WorldView, colony_id: u32, start: Position) -> bool {
    exists|i: int|
        0 <= i < s.ants.rows.len() && can_dig(#[trigger] s.ants.rows[i], colony_id, start)
}

/// Why digging a tunnel is turned down: the first test that fails, in the
/// order given here. `None` means it goes ahead.
pub open spec fn dig_tunnel_check(
    s: WorldView,
    ctx: Context,
    colony_id: u32,
    start: Position,
) -> Option<CommandError> {
    if s.colony_check(ctx, colony_id) is Some {
        s.colony_check(ctx, colony_id)
    } else if !digger_nearby(s, colony_id, start) {
        Some(CommandError::OutOfRange)
    } else if s.tunnels.is_full() {
        Some(CommandError::Exhausted)
    } else {
        None
    }
}

/// The state after digging a tunnel that went ahead.
pub open spec fn dig_tunnel_next(
    s: WorldView,
    colony_id: u32,
    start: Position,
    end: Position,
) -> WorldView {
    WorldView {
        tunnels: s.tunnels.insert(
            Tunnel { id: s.tunnels.next_id, colony_id, start, end, width: TUNNEL_WIDTH },
        ),
        ..s
    }
}

/// Has creature `ant_id` build a chamber at (`x`, `y`, `z`) at its colony's
/// expense. Returns the chamber's identifier.
pub fn build_chamber(
    world: &mut World,
    ctx: Context,
    ant_id: u32,
    chamber_type: ChamberType,
    x: i32,
    y: i32,
    z: i32,
) -> (done: Result<u32, CommandError>)
    requires
        old(world)@.wf(),
    ensures
        final(world)@.wf(),
        match build_chamber_check(old(world)@, ctx, ant_id, chamber_type) {
            Some(e) => done == Err::<u32, CommandError>(e) && final(world)@ == old(world)@,
            None => done == Ok::<u32, CommandError>(old(world)@.chambers.next_id) && final(world)@
                == build_chamber_next(old(world)@, ant_id, chamber_type, Position { x, y, z }),
        },
{
    let (ai, ci) = match check_ant(world, ctx, ant_id) {
        Ok(found) => found,
        Err(e) => {
            return Err(e);
        },
    };
    let ant = world.ants.rows[ai];
    let colony = world.colonies.rows[ci];
    let allowed = match ant.ant_type {
        AntType::Queen => chamber_type == ChamberType::Burrow,
        AntType::Worker => chamber_type != ChamberType::Burrow,
        _ => false,
    };
    if !allowed {
        return Err(CommandError::InvalidState);
    }
    let price = price_of_chamber(chamber_type);
    match shortage(&colony, &price) {
        Some(short) => {
            return Err(CommandError::InsufficientResources(short));
        },
        None => {},
    }
    if !world.chambers.has_room() {
        return Err(CommandError::Exhausted);
    }
    let mut paid = colony;
    apply_cost(&mut paid, &price);
    store_colony(world, ci, paid);
    let id = world.chambers.next_id;
    world.chambers.insert(
        Chamber {
            id,
            colony_id: colony.id,
            chamber_type,
            position: Position { x, y, z },
            level: 1,
            capacity: capacity_of_chamber(chamber_type),
        },
    );
    Ok(id)
}

fn has_digger(world: &World, colony_id: u32, start: Position) -> (found: bool)
    ensures
        found == digger_nearby(world@, colony_id, start),
{
    let mut i: usize = 0;
    while i < world.ants.rows.len()
        invariant
            i <= world.ants.rows.len(),
            forall|k: int|
                0 <= k < i ==> !can_dig(#[trigger] world@.ants.rows[k], colony_id, start),
        decreases world.ants.rows.len() - i,
    {
        let ant = &world.ants.rows[i];
        if ant.colony_id == colony_id && ant.ant_type == AntType::Worker && is_closer_than(
            ant.position,
            start,
            DIG_RANGE,
        ) {
            return true;
        }
        i += 1;
    }
    false
}

/// Digs a tunnel between two points; a worker of the colony must stand
/// within reach of the start. Returns the tunnel's identifier.
pub fn dig_tunnel(
    world: &mut World,
    ctx: Context,
    colony_id: u32,
    start: Position,
    end: Position,
) -> (done: Result<u32, CommandError>)
    requires
        old(world)@.wf(),
    ensures
        final(world)@.wf(),
        match dig_tunnel_check(old(world)@, ctx, colony_id, start) {
            Some(e) => done == Err::<u32, CommandError>(e) && final(world)@ == old(world)@,
            None => done == Ok::<u32, CommandError>(old(world)@.tunnels.next_id) && final(world)@
                == dig_tunnel_next(old(world)@, colony_id, start, end),
        },
{
    match check_colony(world, ctx, colony_id) {
        Ok(_) => {},
        Err(e) => {
            return Err(e);
        },
    }
    if !has_digger(world, colony_id, start) {
        return Err(CommandError::OutOfRange);
    }
    if !world.tunnels.has_room() {
        return Err(CommandError::Exhausted);
    }
    let id = world.tunnels.next_id;
    world.tunnels.insert(Tunnel { id, colony_id, start, end, width: TUNNEL_WIDTH });
    Ok(id)
}

} // verus!
