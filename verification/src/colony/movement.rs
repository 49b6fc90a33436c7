//! Sending creatures somewhere: group moves and the hive-wide orders.

use vstd::prelude::*;
use crate::colony::economy::{move_cost, travel_cost};
use crate::colony::geometry::{distance, distance_3d, offset, offset_by};
use crate::colony::types::{
    Ant, AntType, Colony, Position, ResourceNode, ResourceType, TaskType,
};
use crate::colony::world::{
    check_colony, healthy, lemma_bounded_same, owns, store_colony, World, WorldView,
};
use crate::error::{CommandError, Entity, Shortage};
use crate::identity::{Context, Identity};
use crate::table::TableView;

verus! {

/// The creature with a new destination and a new task.
pub open spec fn sent(ant: Ant, target: Position, task: TaskType) -> Ant {
    Ant { target: Some(target), task, ..ant }
}

fn send(ant: Ant, target: Position, task: TaskType) -> (moved: Ant)
    ensures
        moved == sent(ant, target, task),
{
    Ant { target: Some(target), task, ..ant }
}

/// Replaces the creatures by `herd`, which holds the same creatures in the
/// same order, each still alive and in its colony.
fn store_herd(world: &mut World, herd: Vec<Ant>)
    requires
        old(world)@.wf(),
        herd.len() == old(world).ants.rows.len(),
        forall|i: int|
            0 <= i < herd.len() ==> (#[trigger] herd[i]).id == old(world).ants.rows[i].id
                && herd[i].colony_id == old(world).ants.rows[i].colony_id && healthy(herd[i]),
    ensures
        final(world)@.wf(),
        final(world)@ == (WorldView {
            ants: TableView { rows: herd@, ..old(world)@.ants },
            ..old(world)@
        }),
{
    let ghost before = world@;
    world.ants.rows = herd;
    proof {
        lemma_bounded_same(before.colonies.rows, before.ants.rows, world@.ants.rows);
    }
}

// ----- command_ants -----

/// `id` names a creature of a colony of `owner`.
pub open spec fn commands(s: WorldView, owner: Identity, id: u32) -> bool {
    s.ants.contains(id) && s.owns_colony(owner, s.ants.get(id).colony_id)
}

/// Jelly it costs to send the first `n` listed creatures to `target`.
/// Listed creatures the caller does not command cost nothing, and a
/// creature listed twice costs twice.
pub open spec fn total_move_cost(
    s: WorldView,
    owner: Identity,
    ids: Seq<u32>,
    target: Position,
    n: nat,
) -> int
    decreases n,
{
    if n == 0 {
        0
    } else {
        total_move_cost(s, owner, ids, target, (n - 1) as nat) + if commands(
            s,
            owner,
            ids[n - 1],
        ) {
            move_cost(s.ants.get(ids[n - 1]).position, target)
        } else {
            0
        }
    }
}

/// The colony that pays for a group move: the colony of the first of the
/// first `n` listed creatures that the caller commands.
pub open spec fn payer(s: WorldView, owner: Identity, ids: Seq<u32>, n: nat) -> Option<u32>
    decreases n,
{
    if n == 0 {
        None
    } else {
        match payer(s, owner, ids, (n - 1) as nat) {
            Some(colony_id) => Some(colony_id),
            None => if commands(s, owner, ids[n - 1]) {
                Some(s.ants.get(ids[n - 1]).colony_id)
            } else {
                None
            },
        }
    }
}

/// Why a group move is turned down: the first test that fails, in the
/// order given here. `None` means it goes ahead.
pub open spec fn command_ants_check(
    s: WorldView,
    ctx: Context,
    ids: Seq<u32>,
    target: Position,
) -> Option<CommandError> {
    match payer(s, ctx.sender, ids, ids.len()) {
        None => None,
        Some(colony_id) => if s.colonies.get(colony_id).queen_jelly < total_move_cost(
            s,
            ctx.sender,
            ids,
            target,
            ids.len(),
        ) {
            Some(CommandError::InsufficientResources(Shortage::Jelly))
        } else {
            None
        },
    }
}

/// The creature after a group move to `target` that lists `ids`.
pub open spec fn commanded(
    s: WorldView,
    owner: Identity,
    ids: Seq<u32>,
    target: Position,
    ant: Ant,
) -> Ant {
    if ids.contains(ant.id) && s.owns_colony(owner, ant.colony_id) {
        sent(ant, target, TaskType::Exploring)
    } else {
        ant
    }
}

/// All creatures after a group move to `target` that lists `ids`.
pub open spec fn commanded_herd(
    s: WorldView,
    owner: Identity,
    ids: Seq<u32>,
    target: Position,
) -> Seq<Ant> {
    s.ants.rows.map_values(|ant: Ant| commanded(s, owner, ids, target, ant))
}

/// Every listed creature the caller commands explores towards `target`,
/// and the paying colony is charged the total once.
pub open spec fn command_ants_next(
    s: WorldView,
    ctx: Context,
    ids: Seq<u32>,
    target: Position,
) -> WorldView {
    match payer(s, ctx.sender, ids, ids.len()) {
        None => s,
        Some(colony_id) => {
            let colony = s.colonies.get(colony_id);
            WorldView {
                colonies: s.colonies.update(
                    Colony {
                        queen_jelly: (colony.queen_jelly - total_move_cost(
                            s,
                            ctx.sender,
                            ids,
                            target,
                            ids.len(),
                        )) as u64,
                        ..colony
                    },
                ),
                ants: TableView {
                    rows: commanded_herd(s, ctx.sender, ids, target),
                    ..s.ants
                },
                ..s
            }
        },
    }
}

fn listed(ids: &Vec<u32>, id: u32) -> (found: bool)
    ensures
        found == ids@.contains(id),
{
    let mut k: usize = 0;
    while k < ids.len()
        invariant
            k <= ids.len(),
            forall|j: int| 0 <= j < k ==> ids[j] != id,
        decreases ids.len() - k,
    {
        if ids[k] == id {
            return true;
        }
        k += 1;
    }
    false
}

/// Sends the listed creatures to (`x`, `y`, `z`). Travel costs a hundredth
/// of a unit of jelly per world unit and creature; the total is charged
/// once, to the colony of the first listed creature the caller commands. If
/// that colony cannot pay, nobody moves and nothing is charged.
pub fn command_ants(
    world: &mut World,
    ctx: Context,
    ant_ids: Vec<u32>,
    x: i32,
    y: i32,
    z: i32,
) -> (done: Result<(), CommandError>)
    requires
        old(world)@.wf(),
    ensures
        final(world)@.wf(),
        match command_ants_check(old(world)@, ctx, ant_ids@, Position { x, y, z }) {
            Some(e) => done == Err::<(), CommandError>(e) && final(world)@ == old(world)@,
            None => done == Ok::<(), CommandError>(()) && final(world)@ == command_ants_next(
                old(world)@,
                ctx,
                ant_ids@,
                Position { x, y, z },
            ),
        },
{
    let ghost before = world@;
    let target = Position { x, y, z };
    let mut total: u128 = 0;
    let mut paying: Option<usize> = None;
    let mut k: usize = 0;
    while k < ant_ids.len()
        invariant
            k <= ant_ids.len(),
            world@ == before,
            before.wf(),
            total == total_move_cost(before, ctx.sender, ant_ids@, target, k as nat),
            total <= k * 0x800_0000,
            match paying {
                Some(c) => c < world.colonies.rows.len() && payer(
                    before,
                    ctx.sender,
                    ant_ids@,
                    k as nat,
                ) == Some(world.colonies.rows[c as int].id),
                None => payer(before, ctx.sender, ant_ids@, k as nat) is None,
            },
        decreases ant_ids.len() - k,
    {
        match world.ants.find(ant_ids[k]) {
            Some(a) => {
                let ant = &world.ants.rows[a];
                match world.colonies.find(ant.colony_id) {
                    Some(c) => {
                        if world.colonies.rows[c].player_id == ctx.sender {
                            total = total + travel_cost(ant.position, target) as u128;
                            if paying.is_none() {
                                paying = Some(c);
                            }
                        }
                    },
                    None => {},
                }
            },
            None => {},
        }
        k += 1;
    }
    let at = match paying {
        Some(c) => c,
        None => {
            return Ok(());
        },
    };
    let colony = world.colonies.rows[at];
    if (colony.queen_jelly as u128) < total {
        return Err(CommandError::InsufficientResources(Shortage::Jelly));
    }
    let mut herd: Vec<Ant> = Vec::new();
    let mut i: usize = 0;
    while i < world.ants.rows.len()
        invariant
            i <= world.ants.rows.len(),
            world@ == before,
            before.wf(),
            herd.len() == i,
            forall|j: int|
                0 <= j < i ==> #[trigger] herd[j] == commanded(
                    before,
                    ctx.sender,
                    ant_ids@,
                    target,
                    before.ants.rows[j],
                ),
        decreases world.ants.rows.len() - i,
    {
        let ant = world.ants.rows[i];
        if listed(&ant_ids, ant.id) && owns(world, ctx.sender, ant.colony_id) {
            herd.push(send(ant, target, TaskType::Exploring));
        } else {
            herd.push(ant);
        }
        i += 1;
    }
    store_herd(world, herd);
    store_colony(world, at, Colony { queen_jelly: colony.queen_jelly - total as u64, ..colony });
    Ok(())
}

// ----- the nearest deposit -----

/// A deposit creatures can be sent to: it is not empty, and it holds food
/// if only food will do.
pub open spec fn eligible(node: ResourceNode, food_only: bool) -> bool {
    node.amount > 0 && (food_only ==> node.resource_type == ResourceType::Food)
}

/// How far a deposit lies from `from`, in whole world units.
pub open spec fn node_rank(node: ResourceNode, from: Position) -> int {
    distance(node.position, from) / 1000
}

/// Position of the eligible deposit nearest to `from` among the first `n`.
/// Distances count in whole world units, and of several deposits equally
/// near the earliest wins.
pub open spec fn nearest_node(
    nodes: Seq<ResourceNode>,
    from: Position,
    food_only: bool,
    n: nat,
) -> Option<int>
    decreases n,
{
    if n == 0 {
        None
    } else {
        let best = nearest_node(nodes, from, food_only, (n - 1) as nat);
        if eligible(nodes[n - 1], food_only) && (best is None || node_rank(nodes[n - 1], from)
            < node_rank(nodes[best->0], from)) {
            Some(n - 1)
        } else {
            best
        }
    }
}

/// Finds the deposit nearest to `from` that creatures can be sent to.
pub fn find_nearest(world: &World, from: Position, food_only: bool) -> (found: Option<usize>)
    ensures
        match found {
            Some(b) => b < world.resource_nodes.rows.len() && nearest_node(
                world@.resource_nodes.rows,
                from,
                food_only,
                world@.resource_nodes.rows.len(),
            ) == Some(b as int),
            None => nearest_node(
                world@.resource_nodes.rows,
                from,
                food_only,
                world@.resource_nodes.rows.len(),
            ) is None,
        },
{
    let mut best: Option<usize> = None;
    let mut best_rank: u64 = 0;
    let mut i: usize = 0;
    while i < world.resource_nodes.rows.len()
        invariant
            i <= world.resource_nodes.rows.len(),
            match best {
                Some(b) => b < i && nearest_node(
                    world@.resource_nodes.rows,
                    from,
                    food_only,
                    i as nat,
                ) == Some(b as int) && best_rank == node_rank(
                    world@.resource_nodes.rows[b as int],
                    from,
                ),
                None => nearest_node(world@.resource_nodes.rows, from, food_only, i as nat)
                    is None,
            },
        decreases world.resource_nodes.rows.len() - i,
    {
        let node = &world.resource_nodes.rows[i];
        let fits = node.amount > 0 && (!food_only || node.resource_type == ResourceType::Food);
        if fits {
            let rank = distance_3d(node.position, from) / 1000;
            if best.is_none() || rank < best_rank {
                best = Some(i);
                best_rank = rank;
            }
        }
        i += 1;
    }
    best
}

// ----- hive_command_gather -----

/// The creature is a worker or a scout of the colony.
pub open spec fn is_gatherer(ant: Ant, colony_id: u32) -> bool {
    ant.colony_id == colony_id && (ant.ant_type == AntType::Worker || ant.ant_type
        == AntType::Scout)
}

/// A worker or scout of the colony goes gathering at the deposit nearest
/// to it, if any deposit has something left.
pub open spec fn gathering(s: WorldView, colony_id: u32, ant: Ant) -> Ant {
    let nodes = s.resource_nodes.rows;
    if is_gatherer(ant, colony_id) && nearest_node(nodes, ant.position, false, nodes.len())
        is Some {
        sent(
            ant,
            nodes[nearest_node(nodes, ant.position, false, nodes.len())->0].position,
            TaskType::Gathering,
        )
    } else {
        ant
    }
}

/// All creatures after the colony was told to gather.
pub open spec fn gathering_herd(s: WorldView, colony_id: u32) -> Seq<Ant> {
    s.ants.rows.map_values(|ant: Ant| gathering(s, colony_id, ant))
}

/// The state after the order to gather that went ahead.
pub open spec fn hive_command_gather_next(s: WorldView, colony_id: u32) -> WorldView {
    WorldView { ants: TableView { rows: gathering_herd(s, colony_id), ..s.ants }, ..s }
}

/// Sends every worker and scout of the colony to the deposit nearest to it.
pub fn hive_command_gather(world: &mut World, ctx: Context, colony_id: u32) -> (done: Result<
    (),
    CommandError,
>)
    requires
        old(world)@.wf(),
    ensures
        final(world)@.wf(),
        match old(world)@.colony_check(ctx, colony_id) {
            Some(e) => done == Err::<(), CommandError>(e) && final(world)@ == old(world)@,
            None => done == Ok::<(), CommandError>(()) && final(world)@
                == hive_command_gather_next(old(world)@, colony_id),
        },
{
    match check_colony(world, ctx, colony_id) {
        Ok(_) => {},
        Err(e) => {
            return Err(e);
        },
    }
    let ghost before = world@;
    let mut herd: Vec<Ant> = Vec::new();
    let mut i: usize = 0;
    while i < world.ants.rows.len()
        invariant
            i <= world.ants.rows.len(),
            world@ == before,
            herd.len() == i,
            forall|j: int|
                0 <= j < i ==> #[trigger] herd[j] == gathering(
                    before,
                    colony_id,
                    before.ants.rows[j],
                ),
        decreases world.ants.rows.len() - i,
    {
        let ant = world.ants.rows[i];
        let mut moved = ant;
        if ant.colony_id == colony_id && (ant.ant_type == AntType::Worker || ant.ant_type
            == AntType::Scout) {
            match find_nearest(world, ant.position, false) {
                Some(n) => {
                    moved = send(ant, world.resource_nodes.rows[n].position, TaskType::Gathering);
                },
                None => {},
            }
        }
        herd.push(moved);
        i += 1;
    }
    store_herd(world, herd);
    Ok(())
}

// ----- hive_command_defend -----

/// Sixteen directions around a point, a sixteenth of a turn apart, as the
/// thousandths of a step east and north.
pub open spec fn compass(slot: int) -> (int, int) {
    if slot == 0 {
        (1000, 0)
    } else if slot == 1 {
        (924, 383)
    } else if slot == 2 {
        (707, 707)
    } else if slot == 3 {
        (383, 924)
    } else if slot == 4 {
        (0, 1000)
    } else if slot == 5 {
        (-383, 924)
    } else if slot == 6 {
        (-707, 707)
    } else if slot == 7 {
        (-924, 383)
    } else if slot == 8 {
        (-1000, 0)
    } else if slot == 9 {
        (-924, -383)
    } else if slot == 10 {
        (-707, -707)
    } else if slot == 11 {
        (-383, -924)
    } else if slot == 12 {
        (0, -1000)
    } else if slot == 13 {
        (383, -924)
    } else if slot == 14 {
        (707, -707)
    } else {
        (924, -383)
    }
}

/// How far from the queen a creature stands guard, in world units:
/// soldiers and majors form the inner ring.
pub open spec fn guard_radius(ant_type: AntType) -> int {
    if ant_type == AntType::Soldier || ant_type == AntType::Major {
        15
    } else {
        25
    }
}

/// Where a creature stands guard: on the ring of its type around `centre`,
/// in the direction its identifier picks.
pub open spec fn guard_post(centre: Position, ant: Ant) -> Position {
    let direction = compass(ant.id as int % 16);
    offset(
        centre,
        guard_radius(ant.ant_type) * direction.0,
        guard_radius(ant.ant_type) * direction.1,
        0,
    )
}

/// Why the order to defend is turned down: the first test that fails, in the
/// order given here. `None` means it goes ahead.
pub open spec fn hive_command_defend_check(s: WorldView, ctx: Context, colony_id: u32) -> Option<
    CommandError,
> {
    if s.colony_check(ctx, colony_id) is Some {
        s.colony_check(ctx, colony_id)
    } else if s.colonies.get(colony_id).queen_id is None || !s.ants.contains(
        s.colonies.get(colony_id).queen_id->0,
    ) {
        Some(CommandError::NotFound(Entity::Ant))
    } else {
        None
    }
}

/// Every creature of the colony but a queen returns to its guard post.
pub open spec fn defending(centre: Position, colony_id: u32, ant: Ant) -> Ant {
    if ant.colony_id == colony_id && ant.ant_type != AntType::Queen {
        sent(ant, guard_post(centre, ant), TaskType::Returning)
    } else {
        ant
    }
}

/// All creatures after the colony was told to defend its queen.
pub open spec fn defending_herd(s: WorldView, colony_id: u32) -> Seq<Ant> {
    let centre = s.ants.get(s.colonies.get(colony_id).queen_id->0).position;
    s.ants.rows.map_values(|ant: Ant| defending(centre, colony_id, ant))
}

/// The state after the order to defend that went ahead.
pub open spec fn hive_command_defend_next(s: WorldView, colony_id: u32) -> WorldView {
    WorldView { ants: TableView { rows: defending_herd(s, colony_id), ..s.ants }, ..s }
}

fn direction(slot: u32) -> (step: (i32, i32))
    requires
        slot < 16,
    ensures
        step.0 == compass(slot as int).0,
        step.1 == compass(slot as int).1,
{
    if slot == 0 {
        (1000, 0)
    } else if slot == 1 {
        (924, 383)
    } else if slot == 2 {
        (707, 707)
    } else if slot == 3 {
        (383, 924)
    } else if slot == 4 {
        (0, 1000)
    } else if slot == 5 {
        (-383, 924)
    } else if slot == 6 {
        (-707, 707)
    } else if slot == 7 {
        (-924, 383)
    } else if slot == 8 {
        (-1000, 0)
    } else if slot == 9 {
        (-924, -383)
    } else if slot == 10 {
        (-707, -707)
    } else if slot == 11 {
        (-383, -924)
    } else if slot == 12 {
        (0, -1000)
    } else if slot == 13 {
        (383, -924)
    } else if slot == 14 {
        (707, -707)
    } else {
        (924, -383)
    }
}

fn post_for(centre: Position, ant: &Ant) -> (post: Position)
    ensures
        post == guard_post(centre, *ant),
{
    let step = direction(ant.id % 16);
    let radius: i32 = if ant.ant_type == AntType::Soldier || ant.ant_type == AntType::Major {
        15
    } else {
        25
    };
    offset_by(centre, radius * step.0, radius * step.1, 0)
}

/// Calls every creature of the colony back to guard the queen: soldiers
/// and majors fifteen world units from her, all others twenty-five.
pub fn hive_command_defend(world: &mut World, ctx: Context, colony_id: u32) -> (done: Result<
    (),
    CommandError,
>)
    requires
        old(world)@.wf(),
    ensures
        final(world)@.wf(),
        match hive_command_defend_check(old(world)@, ctx, colony_id) {
            Some(e) => done == Err::<(), CommandError>(e) && final(world)@ == old(world)@,
            None => done == Ok::<(), CommandError>(()) && final(world)@
                == hive_command_defend_next(old(world)@, colony_id),
        },
{
    let ci = match check_colony(world, ctx, colony_id) {
        Ok(i) => i,
        Err(e) => {
            return Err(e);
        },
    };
    let queen_id = match world.colonies.rows[ci].queen_id {
        Some(id) => id,
        None => {
            return Err(CommandError::NotFound(Entity::Ant));
        },
    };
    let centre = match world.ants.find(queen_id) {
        Some(q) => world.ants.rows[q].position,
        None => {
            return Err(CommandError::NotFound(Entity::Ant));
        },
    };
    let ghost before = world@;
    let mut herd: Vec<Ant> = Vec::new();
    let mut i: usize = 0;
    while i < world.ants.rows.len()
        invariant
            i <= world.ants.rows.len(),
            world@ == before,
            herd.len() == i,
            forall|j: int|
                0 <= j < i ==> #[trigger] herd[j] == defending(
                    centre,
                    colony_id,
                    before.ants.rows[j],
                ),
        decreases world.ants.rows.len() - i,
    {
        let ant = world.ants.rows[i];
        if ant.colony_id == colony_id && ant.ant_type != AntType::Queen {
            herd.push(send(ant, post_for(centre, &ant), TaskType::Returning));
        } else {
            herd.push(ant);
        }
        i += 1;
    }
    store_herd(world, herd);
    Ok(())
}

// ----- hive_command_hunt -----

/// The creature is a soldier or a major of the colony.
pub open spec fn is_fighter(ant: Ant, colony_id: u32) -> bool {
    ant.colony_id == colony_id && (ant.ant_type == AntType::Soldier || ant.ant_type
        == AntType::Major)
}

/// The creature is a scout of the colony.
pub open spec fn is_scout(ant: Ant, colony_id: u32) -> bool {
    ant.colony_id == colony_id && ant.ant_type == AntType::Scout
}

/// The creature in position `i` is the colony's first scout.
pub open spec fn leads(ants: Seq<Ant>, colony_id: u32, i: int) -> bool {
    is_scout(ants[i], colony_id) && forall|j: int|
        0 <= j < i ==> !is_scout(#[trigger] ants[j], colony_id)
}

/// Soldiers and majors of the colony go to fight at `target`, and the
/// colony's first scout explores ahead of them.
pub open spec fn hunting_herd(s: WorldView, colony_id: u32, target: Position) -> Seq<Ant> {
    Seq::new(
        s.ants.rows.len(),
        |i: int|
            if is_fighter(s.ants.rows[i], colony_id) {
                sent(s.ants.rows[i], target, TaskType::Fighting)
            } else if leads(s.ants.rows, colony_id, i) {
                sent(s.ants.rows[i], target, TaskType::Exploring)
            } else {
                s.ants.rows[i]
            },
    )
}

/// The state after the order to hunt that went ahead.
pub open spec fn hive_command_hunt_next(
    s: WorldView,
    colony_id: u32,
    target: Position,
) -> WorldView {
    WorldView { ants: TableView { rows: hunting_herd(s, colony_id, target), ..s.ants }, ..s }
}

/// Sends the colony's soldiers and majors to fight at (`x`, `y`, `z`), with
/// one scout ahead of them.
pub fn hive_command_hunt(
    world: &mut World,
    ctx: Context,
    colony_id: u32,
    x: i32,
    y: i32,
    z: i32,
) -> (done: Result<(), CommandError>)
    requires
        old(world)@.wf(),
    ensures
        final(world)@.wf(),
        match old(world)@.colony_check(ctx, colony_id) {
            Some(e) => done == Err::<(), CommandError>(e) && final(world)@ == old(world)@,
            None => done == Ok::<(), CommandError>(()) && final(world)@
                == hive_command_hunt_next(old(world)@, colony_id, Position { x, y, z }),
        },
{
    match check_colony(world, ctx, colony_id) {
        Ok(_) => {},
        Err(e) => {
            return Err(e);
        },
    }
    let ghost before = world@;
    let target = Position { x, y, z };
    let mut herd: Vec<Ant> = Vec::new();
    let mut scouted = false;
    let mut i: usize = 0;
    while i < world.ants.rows.len()
        invariant
            i <= world.ants.rows.len(),
            world@ == before,
            herd.len() == i,
            scouted == exists|j: int|
                0 <= j < i && is_scout(#[trigger] before.ants.rows[j], colony_id),
            forall|j: int|
                0 <= j < i ==> #[trigger] herd[j] == hunting_herd(before, colony_id, target)[j],
        decreases world.ants.rows.len() - i,
    {
        let ant = world.ants.rows[i];
        if ant.colony_id == colony_id && (ant.ant_type == AntType::Soldier || ant.ant_type
            == AntType::Major) {
            herd.push(send(ant, target, TaskType::Fighting));
        } else if ant.colony_id == colony_id && ant.ant_type == AntType::Scout {
            if scouted {
                herd.push(ant);
            } else {
                herd.push(send(ant, target, TaskType::Exploring));
                scouted = true;
            }
        } else {
            herd.push(ant);
        }
        i += 1;
    }
    store_herd(world, herd);
    Ok(())
}

} // verus!
