//! Scouting for deposits and marking trails.

use vstd::prelude::*;
use crate::colony::geometry::{is_within, within};
use crate::colony::types::{
    AntType, DiscoveredResource, ExploredTerritory, Pheromone, Position, ResourceNode,
};
use crate::colony::world::{check_ant, check_colony, World, WorldView};
use crate::error::CommandError;
use crate::identity::Context;
use crate::table::TableView;

verus! {

/// How far a scout sees: fifty world units.
pub const SCOUT_VISION: u32 = 50_000;

/// Strength of a fresh pheromone mark.
pub const PHEROMONE_STRENGTH: u64 = 100_000;

/// The entry says that colony `colony_id` knows deposit `resource_id`.
pub open spec fn records(found: DiscoveredResource, colony_id: u32, resource_id: u32) -> bool {
    found.colony_id == colony_id && found.resource_id == resource_id
}

/// Colony `colony_id` has already discovered deposit `resource_id`.
pub open spec fn known(found: Seq<DiscoveredResource>, colony_id: u32, resource_id: u32) -> bool {
    exists|i: int| 0 <= i < found.len() && records(#[trigger] found[i], colony_id, resource_id)
}

/// The discoveries after a scout at `from` has looked at the first `n`
/// deposits: each one in sight that the colony did not know is recorded.
pub open spec fn discoveries(
    found: TableView<DiscoveredResource>,
    nodes: Seq<ResourceNode>,
    colony_id: u32,
    from: Position,
    now: u64,
    n: nat,
) -> TableView<DiscoveredResource>
    decreases n,
{
    if n == 0 {
        found
    } else {
        let so_far = discoveries(found, nodes, colony_id, from, now, (n - 1) as nat);
        let node = nodes[n - 1];
        if within(from, node.position, SCOUT_VISION as int) && !known(
            so_far.rows,
            colony_id,
            node.id,
        ) {
            so_far.insert(
                DiscoveredResource {
                    id: so_far.next_id,
                    colony_id,
                    resource_id: node.id,
                    discovered_at: now,
                },
            )
        } else {
            so_far
        }
    }
}

/// Some deposit lies in sight of `from`.
pub open spec fn in_sight(nodes: Seq<ResourceNode>, from: Position) -> bool {
    exists|i: int|
        0 <= i < nodes.len() && within(from, (#[trigger] nodes[i]).position, SCOUT_VISION as int)
}

/// Why a scout looking around is turned down: the first test that fails, in the
/// order given here. `None` means it goes ahead.
pub open spec fn discover_resources_check(s: WorldView, ctx: Context, ant_id: u32) -> Option<
    CommandError,
> {
    if s.ant_check(ctx, ant_id) is Some {
        s.ant_check(ctx, ant_id)
    } else if s.ants.get(ant_id).ant_type != AntType::Scout {
        Some(CommandError::InvalidState)
    } else if s.explored.is_full() || s.discovered.next_id + s.resource_nodes.rows.len()
        > u32::MAX {
        Some(CommandError::Exhausted)
    } else {
        None
    }
}

/// The scout's colony learns of every deposit in sight, and the place the
/// scout stands on is recorded as explored.
pub open spec fn discover_resources_next(s: WorldView, ctx: Context, ant_id: u32) -> WorldView {
    let ant = s.ants.get(ant_id);
    WorldView {
        discovered: discoveries(
            s.discovered,
            s.resource_nodes.rows,
            ant.colony_id,
            ant.position,
            ctx.timestamp,
            s.resource_nodes.rows.len(),
        ),
        explored: s.explored.insert(
            ExploredTerritory {
                id: s.explored.next_id,
                colony_id: ant.colony_id,
                position: ant.position,
                discovered_at: ctx.timestamp,
                has_resources: in_sight(s.resource_nodes.rows, ant.position),
                has_threats: false,
                threat_level: 0,
            },
        ),
        ..s
    }
}

/// Why laying a pheromone is turned down: the first test that fails, in the
/// order given here. `None` means it goes ahead.
pub open spec fn lay_pheromone_check(s: WorldView, ctx: Context, colony_id: u32) -> Option<
    CommandError,
> {
    if s.colony_check(ctx, colony_id) is Some {
        s.colony_check(ctx, colony_id)
    } else if s.pheromones.is_full() {
        Some(CommandError::Exhausted)
    } else {
        None
    }
}

/// The state after laying a pheromone that went ahead.
pub open spec fn lay_pheromone_next(
    s: WorldView,
    ctx: Context,
    colony_id: u32,
    position: Position,
    pheromone_type: String,
) -> WorldView {
    WorldView {
        pheromones: s.pheromones.insert(
            Pheromone {
                id: s.pheromones.next_id,
                colony_id,
                position,
                strength: PHEROMONE_STRENGTH,
                pheromone_type,
                created_at: ctx.timestamp,
            },
        ),
        ..s
    }
}

fn is_known(world: &World, colony_id: u32, resource_id: u32) -> (found: bool)
    ensures
        found == known(world@.discovered.rows, colony_id, resource_id),
{
    let mut i: usize = 0;
    while i < world.discovered.rows.len()
        invariant
            i <= world.discovered.rows.len(),
            forall|k: int|
                0 <= k < i ==> !records(
                    #[trigger] world@.discovered.rows[k],
                    colony_id,
                    resource_id,
                ),
        decreases world.discovered.rows.len() - i,
    {
        let entry = &world.discovered.rows[i];
        if entry.colony_id == colony_id && entry.resource_id == resource_id {
            return true;
        }
        i += 1;
    }
    false
}

fn sees_deposit(world: &World, from: Position) -> (seen: bool)
    ensures
        seen == in_sight(world@.resource_nodes.rows, from),
{
    let mut i: usize = 0;
    while i < world.resource_nodes.rows.len()
        invariant
            i <= world.resource_nodes.rows.len(),
            forall|k: int|
                0 <= k < i ==> !within(
                    from,
                    (#[trigger] world@.resource_nodes.rows[k]).position,
                    SCOUT_VISION as int,
                ),
        decreases world.resource_nodes.rows.len() - i,
    {
        if is_within(from, world.resource_nodes.rows[i].position, SCOUT_VISION) {
            return true;
        }
        i += 1;
    }
    false
}

/// Has scout `ant_id` look around: deposits within fifty world units
/// become known to its colony, and the spot is recorded as explored.
pub fn discover_resources(world: &mut World, ctx: Context, ant_id: u32) -> (done: Result<
    (),
    CommandError,
>)
    requires
        old(world)@.wf(),
    ensures
        final(world)@.wf(),
        match discover_resources_check(old(world)@, ctx, ant_id) {
            Some(e) => done == Err::<(), CommandError>(e) && final(world)@ == old(world)@,
            None => done == Ok::<(), CommandError>(()) && final(world)@
                == discover_resources_next(old(world)@, ctx, ant_id),
        },
{
    let (ai, _) = match check_ant(world, ctx, ant_id) {
        Ok(found) => found,
        Err(e) => {
            return Err(e);
        },
    };
    let ant = world.ants.rows[ai];
    if ant.ant_type != AntType::Scout {
        return Err(CommandError::InvalidState);
    }
    if !world.explored.has_room() || world.resource_nodes.rows.len() > (u32::MAX
        - world.discovered.next_id) as usize {
        return Err(CommandError::Exhausted);
    }
    let ghost before = world@;
    let now = ctx.timestamp;
    let mut k: usize = 0;
    while k < world.resource_nodes.rows.len()
        invariant
            k <= world.resource_nodes.rows.len(),
            before.wf(),
            before.discovered.next_id + before.resource_nodes.rows.len() <= u32::MAX,
            world.discovered@.wf(),
            world.discovered.next_id <= before.discovered.next_id + k,
            world@ == (WorldView {
                discovered: discoveries(
                    before.discovered,
                    before.resource_nodes.rows,
                    ant.colony_id,
                    ant.position,
                    now,
                    k as nat,
                ),
                ..before
            }),
        decreases world.resource_nodes.rows.len() - k,
    {
        let node = world.resource_nodes.rows[k];
        if is_within(ant.position, node.position, SCOUT_VISION) && !is_known(
            world,
            ant.colony_id,
            node.id,
        ) {
            let id = world.discovered.next_id;
            world.discovered.insert(
                DiscoveredResource {
                    id,
                    colony_id: ant.colony_id,
                    resource_id: node.id,
                    discovered_at: now,
                },
            );
        }
        k += 1;
    }
    let has_resources = sees_deposit(world, ant.position);
    let id = world.explored.next_id;
    world.explored.insert(
        ExploredTerritory {
            id,
            colony_id: ant.colony_id,
            position: ant.position,
            discovered_at: now,
            has_resources,
            has_threats: false,
            threat_level: 0,
        },
    );
    Ok(())
}

/// Marks (`x`, `y`, `z`) with a pheromone of the given kind for the colony.
/// Returns the mark's identifier.
pub fn lay_pheromone(
    world: &mut World,
    ctx: Context,
    colony_id: u32,
    x: i32,
    y: i32,
    z: i32,
    pheromone_type: String,
) -> (done: Result<u32, CommandError>)
    requires
        old(world)@.wf(),
    ensures
        final(world)@.wf(),
        match lay_pheromone_check(old(world)@, ctx, colony_id) {
            Some(e) => done == Err::<u32, CommandError>(e) && final(world)@ == old(world)@,
            None => done == Ok::<u32, CommandError>(old(world)@.pheromones.next_id)
                && final(world)@ == lay_pheromone_next(
                old(world)@,
                ctx,
                colony_id,
                Position { x, y, z },
                pheromone_type,
            ),
        },
{
    match check_colony(world, ctx, colony_id) {
        Ok(_) => {},
        Err(e) => {
            return Err(e);
        },
    }
    if !world.pheromones.has_room() {
        return Err(CommandError::Exhausted);
    }
    let id = world.pheromones.next_id;
    world.pheromones.insert(
        Pheromone {
            id,
            colony_id,
            position: Position { x, y, z },
            strength: PHEROMONE_STRENGTH,
            pheromone_type,
            created_at: ctx.timestamp,
        },
    );
    Ok(id)
}

} // verus!
