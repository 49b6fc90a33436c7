//! The scheduler: one tick lets every matured young queen fly and advances
//! every colony that is under autonomous control by one step.

use vstd::prelude::*;
use crate::colony::geometry::{offset, offset_by};
use crate::colony::lifecycle::{hatch, hatched};
use crate::colony::movement::{find_nearest, nearest_node, sent};
use crate::colony::reproduction::{nuptial_flight, nuptial_flight_check, nuptial_flight_next};
use crate::colony::rng::{rng_draw, rng_step};
use crate::colony::types::{Ant, AntType, Colony, Position, TaskType};
use crate::colony::world::{check_colony, draw, lemma_bounded_same, store_colony, World, WorldView};
use crate::error::CommandError;
use crate::identity::Context;
use crate::table::TableView;

verus! {

/// Jelly a managed colony loses per tick: a tenth of a unit.
pub const JELLY_DECAY: u64 = 100;

/// Below this much jelly a managed colony sends workers for food.
pub const LOW_JELLY: u64 = 20_000;

/// Below this much jelly a managed colony turns food into jelly.
pub const COMFORTABLE_JELLY: u64 = 50_000;

/// How many idle workers a managed colony sends for food at a time.
pub const FORAGERS: usize = 3;

/// How many scouts a managed colony keeps.
pub const WANTED_SCOUTS: usize = 2;

/// How many workers a managed colony keeps.
pub const WANTED_WORKERS: usize = 5;

// ----- toggle_colony_ai -----

/// The state after toggling autonomous control that went ahead.
pub open spec fn toggle_colony_ai_next(s: WorldView, colony_id: u32) -> WorldView {
    let colony = s.colonies.get(colony_id);
    WorldView {
        colonies: s.colonies.update(Colony { ai_enabled: !colony.ai_enabled, ..colony }),
        ..s
    }
}

/// Puts the colony under autonomous control, or takes it back.
pub fn toggle_colony_ai(world: &mut World, ctx: Context, colony_id: u32) -> (done: Result<
    bool,
    CommandError,
>)
    requires
        old(world)@.wf(),
    ensures
        final(world)@.wf(),
        match old(world)@.colony_check(ctx, colony_id) {
            Some(e) => done == Err::<bool, CommandError>(e) && final(world)@ == old(world)@,
            None => done == Ok::<bool, CommandError>(
                !old(world)@.colonies.get(colony_id).ai_enabled,
            ) && final(world)@ == toggle_colony_ai_next(old(world)@, colony_id),
        },
{
    let ci = match check_colony(world, ctx, colony_id) {
        Ok(i) => i,
        Err(e) => {
            return Err(e);
        },
    };
    let colony = world.colonies.rows[ci];
    store_colony(world, ci, Colony { ai_enabled: !colony.ai_enabled, ..colony });
    Ok(!colony.ai_enabled)
}

// ----- replenishment -----

/// The colony's queen is on record.
pub open spec fn has_queen(s: WorldView, colony: Colony) -> bool {
    colony.queen_id is Some && s.ants.contains(colony.queen_id->0)
}

/// The colony's queen (meaningful when she is on record).
pub open spec fn queen_of(s: WorldView, colony: Colony) -> Ant {
    s.ants.get(colony.queen_id->0)
}

/// Where a new scout is sent, given the generator's draw: up to fifty
/// world units east or west and north or south of the queen.
pub open spec fn scout_target(queen_at: Position, drawn: u32) -> Position {
    offset(
        queen_at,
        (drawn % 1000) * 100 - 50_000,
        (drawn % 1337) * 100_000 / 1337 - 50_000,
        0,
    )
}

/// The state after the scheduler has given the colony a scout: it hatches
/// five world units north-east of the queen and sets out exploring. Nothing
/// happens if the colony is not on record, the queen is missing or no
/// identifier is left.
pub open spec fn scout_spawned(s: WorldView, colony: Colony, now: u64) -> WorldView {
    if s.colonies.contains(colony.id) && has_queen(s, colony) && !s.ants.is_full() {
        let queen_at = queen_of(s, colony).position;
        hatched(
            WorldView { rng: rng_step(s.rng), ..s },
            colony.id,
            AntType::Scout,
            offset(queen_at, 5000, 5000, 0),
            TaskType::Exploring,
            Some(scout_target(queen_at, rng_draw(s.rng))),
            None,
            now,
        )
    } else {
        s
    }
}

/// The state after the scheduler has given the colony a worker: it hatches
/// three world units north-east of the queen and stands idle. Nothing
/// happens if the colony is not on record, the queen is missing or no
/// identifier is left.
pub open spec fn worker_spawned(s: WorldView, colony: Colony, now: u64) -> WorldView {
    if s.colonies.contains(colony.id) && has_queen(s, colony) && !s.ants.is_full() {
        hatched(
            s,
            colony.id,
            AntType::Worker,
            offset(queen_of(s, colony).position, 3000, 3000, 0),
            TaskType::Idle,
            None,
            None,
            now,
        )
    } else {
        s
    }
}

fn find_queen(world: &World, colony: &Colony) -> (found: Option<usize>)
    requires
        world@.wf(),
    ensures
        found is Some == has_queen(world@, *colony),
        found matches Some(q) ==> q < world.ants.rows.len() && world.ants.rows[q as int]
            == queen_of(world@, *colony),
{
    match colony.queen_id {
        Some(id) => world.ants.find(id),
        None => None,
    }
}

/// Gives the colony a scout near its queen, free of charge.
pub fn spawn_scout_at_colony(world: &mut World, colony: &Colony, now: u64)
    requires
        old(world)@.wf(),
    ensures
        final(world)@.wf(),
        final(world)@ == scout_spawned(old(world)@, *colony, now),
{
    if world.colonies.find(colony.id).is_none() {
        return ;
    }
    let q = match find_queen(world, colony) {
        Some(q) => q,
        None => {
            return ;
        },
    };
    if !world.ants.has_room() {
        return ;
    }
    let queen_at = world.ants.rows[q].position;
    let drawn = draw(world);
    let east: i64 = (drawn % 1000) as i64 * 100 - 50_000;
    let north: i64 = (drawn % 1337) as i64 * 100_000 / 1337 - 50_000;
    let target = offset_by(queen_at, east as i32, north as i32, 0);
    hatch(
        world,
        colony.id,
        AntType::Scout,
        offset_by(queen_at, 5000, 5000, 0),
        TaskType::Exploring,
        Some(target),
        None,
        now,
    );
}

/// Gives the colony a worker near its queen, free of charge.
pub fn spawn_worker_at_colony(world: &mut World, colony: &Colony, now: u64)
    requires
        old(world)@.wf(),
    ensures
        final(world)@.wf(),
        final(world)@ == worker_spawned(old(world)@, *colony, now),
{
    if world.colonies.find(colony.id).is_none() {
        return ;
    }
    let q = match find_queen(world, colony) {
        Some(q) => q,
        None => {
            return ;
        },
    };
    if !world.ants.has_room() {
        return ;
    }
    let queen_at = world.ants.rows[q].position;
    hatch(
        world,
        colony.id,
        AntType::Worker,
        offset_by(queen_at, 3000, 3000, 0),
        TaskType::Idle,
        None,
        None,
        now,
    );
}

// ----- foraging -----

/// The creature is a worker of the colony with nothing to do.
pub open spec fn is_idle_worker(ant: Ant, colony_id: u32) -> bool {
    ant.colony_id == colony_id && ant.ant_type == AntType::Worker && ant.task == TaskType::Idle
}

/// Number of idle workers of the colony among the first `n` creatures.
pub open spec fn idle_workers(ants: Seq<Ant>, colony_id: u32, n: nat) -> nat
    decreases n,
{
    if n == 0 {
        0
    } else {
        idle_workers(ants, colony_id, (n - 1) as nat) + if is_idle_worker(
            ants[n - 1],
            colony_id,
        ) {
            1nat
        } else {
            0nat
        }
    }
}

/// The first three idle workers of the colony go gathering at `to`.
pub open spec fn foraging_herd(s: WorldView, colony_id: u32, to: Position) -> Seq<Ant> {
    Seq::new(
        s.ants.rows.len(),
        |i: int|
            if is_idle_worker(s.ants.rows[i], colony_id) && idle_workers(
                s.ants.rows,
                colony_id,
                i as nat,
            ) < FORAGERS {
                sent(s.ants.rows[i], to, TaskType::Gathering)
            } else {
                s.ants.rows[i]
            },
    )
}

/// The state after the colony has sent for food: up to three idle workers
/// go to the food deposit nearest to `from`. Nothing happens if no food
/// deposit has anything left.
pub open spec fn foraging(s: WorldView, colony_id: u32, from: Position) -> WorldView {
    let nodes = s.resource_nodes.rows;
    match nearest_node(nodes, from, true, nodes.len()) {
        Some(n) => WorldView {
            ants: TableView { rows: foraging_herd(s, colony_id, nodes[n].position), ..s.ants },
            ..s
        },
        None => s,
    }
}

/// Sends up to three idle workers of the colony to the nearest food.
pub fn forage(world: &mut World, colony_id: u32, from: Position)
    requires
        old(world)@.wf(),
    ensures
        final(world)@.wf(),
        final(world)@ == foraging(old(world)@, colony_id, from),
{
    let to = match find_nearest(world, from, true) {
        Some(n) => world.resource_nodes.rows[n].position,
        None => {
            return ;
        },
    };
    let ghost before = world@;
    let mut herd: Vec<Ant> = Vec::new();
    let mut taken: usize = 0;
    let mut i: usize = 0;
    while i < world.ants.rows.len()
        invariant
            i <= world.ants.rows.len(),
            world@ == before,
            before.wf(),
            herd.len() == i,
            taken == idle_workers(before.ants.rows, colony_id, i as nat),
            taken <= i,
            forall|j: int|
                0 <= j < i ==> #[trigger] herd[j] == foraging_herd(before, colony_id, to)[j],
        decreases world.ants.rows.len() - i,
    {
        let ant = world.ants.rows[i];
        if ant.colony_id == colony_id && ant.ant_type == AntType::Worker && ant.task
            == TaskType::Idle {
            if taken < FORAGERS {
                herd.push(Ant { target: Some(to), task: TaskType::Gathering, ..ant });
            } else {
                herd.push(ant);
            }
            taken += 1;
        } else {
            herd.push(ant);
        }
        i += 1;
    }
    let ghost rows = herd@;
    world.ants.rows = herd;
    proof {
        lemma_bounded_same(before.colonies.rows, before.ants.rows, rows);
    }
}

// ----- one colony's step -----

/// Number of creatures of the given type the colony has among the first `n`.
pub open spec fn count_of(ants: Seq<Ant>, colony_id: u32, ant_type: AntType, n: nat) -> nat
    decreases n,
{
    if n == 0 {
        0
    } else {
        count_of(ants, colony_id, ant_type, (n - 1) as nat) + if ants[n - 1].colony_id
            == colony_id && ants[n - 1].ant_type == ant_type {
            1nat
        } else {
            0nat
        }
    }
}

/// Jelly left after a tick's decay, never below zero.
pub open spec fn decayed(jelly: u64) -> u64 {
    if jelly < JELLY_DECAY {
        0
    } else {
        (jelly - JELLY_DECAY) as u64
    }
}

/// The colony has fewer than two scouts and could afford one.
pub open spec fn wants_scout(s: WorldView, colony: Colony, jelly: u64) -> bool {
    &&& count_of(s.ants.rows, colony.id, AntType::Scout, s.ants.rows.len()) < WANTED_SCOUTS
    &&& colony.food >= 15_000
    &&& colony.larvae >= 1
    &&& jelly >= 2500
}

/// The colony has fewer than five workers and could afford one.
pub open spec fn wants_worker(s: WorldView, colony: Colony, jelly: u64) -> bool {
    &&& count_of(s.ants.rows, colony.id, AntType::Worker, s.ants.rows.len()) < WANTED_WORKERS
    &&& colony.food >= 10_000
    &&& colony.larvae >= 1
    &&& jelly >= 2000
}

/// A colony short of jelly that has food to spare turns ten units of food
/// into five units of jelly.
pub open spec fn converted(colony: Colony) -> Colony {
    if colony.queen_jelly < COMFORTABLE_JELLY && colony.food >= 20_000 {
        Colony {
            food: (colony.food - 10_000) as u64,
            queen_jelly: (colony.queen_jelly + 5000) as u64,
            ..colony
        }
    } else {
        colony
    }
}

/// The state after one step of colony `colony_id`. A colony that is not
/// under autonomous control, or has lost its queen, is left alone.
/// Otherwise its jelly decays; if little is left, idle workers are sent for
/// food; a missing scout and a missing worker are replaced; and food is
/// turned into jelly if jelly is short. Every decision reads the ledger as
/// it was when the step began, with the decayed jelly.
pub open spec fn managed(s: WorldView, colony_id: u32, now: u64) -> WorldView {
    if !s.colonies.contains(colony_id) {
        s
    } else {
        let colony = s.colonies.get(colony_id);
        if !colony.ai_enabled || !has_queen(s, colony) {
            s
        } else {
            let jelly = decayed(colony.queen_jelly);
            let fed = if jelly < LOW_JELLY {
                foraging(s, colony_id, queen_of(s, colony).position)
            } else {
                s
            };
            let scouted = if wants_scout(fed, colony, jelly) {
                scout_spawned(fed, colony, now)
            } else {
                fed
            };
            let staffed = if wants_worker(scouted, colony, jelly) {
                worker_spawned(scouted, colony, now)
            } else {
                scouted
            };
            WorldView {
                colonies: staffed.colonies.update(
                    converted(Colony { queen_jelly: jelly, ..colony }),
                ),
                ..staffed
            }
        }
    }
}

fn count_ants(world: &World, colony_id: u32, ant_type: AntType) -> (count: usize)
    ensures
        count == count_of(world@.ants.rows, colony_id, ant_type, world@.ants.rows.len()),
{
    let mut count: usize = 0;
    let mut i: usize = 0;
    while i < world.ants.rows.len()
        invariant
            i <= world.ants.rows.len(),
            count <= i,
            count == count_of(world@.ants.rows, colony_id, ant_type, i as nat),
        decreases world.ants.rows.len() - i,
    {
        let ant = &world.ants.rows[i];
        if ant.colony_id == colony_id && ant.ant_type == ant_type {
            count += 1;
        }
        i += 1;
    }
    count
}

/// Advances colony `colony_id` by one step.
pub fn manage_colony(world: &mut World, colony_id: u32, now: u64)
    requires
        old(world)@.wf(),
    ensures
        final(world)@.wf(),
        final(world)@ == managed(old(world)@, colony_id, now),
{
    let ci = match world.colonies.find(colony_id) {
        Some(i) => i,
        None => {
            return ;
        },
    };
    let colony = world.colonies.rows[ci];
    if !colony.ai_enabled {
        return ;
    }
    let queen_at = match find_queen(world, &colony) {
        Some(q) => world.ants.rows[q].position,
        None => {
            return ;
        },
    };
    let jelly = colony.queen_jelly.saturating_sub(JELLY_DECAY);
    if jelly < LOW_JELLY {
        forage(world, colony_id, queen_at);
    }
    if count_ants(world, colony.id, AntType::Scout) < WANTED_SCOUTS && colony.food >= 15_000
        && colony.larvae >= 1 && jelly >= 2500 {
        spawn_scout_at_colony(world, &colony, now);
    }
    if count_ants(world, colony.id, AntType::Worker) < WANTED_WORKERS && colony.food >= 10_000
        && colony.larvae >= 1 && jelly >= 2000 {
        spawn_worker_at_colony(world, &colony, now);
    }
    let mut updated = Colony { queen_jelly: jelly, ..colony };
    if updated.queen_jelly < COMFORTABLE_JELLY && updated.food >= 20_000 {
        updated.food = updated.food - 10_000;
        updated.queen_jelly = updated.queen_jelly + 5000;
    }
    store_colony(world, ci, updated);
}

// ----- maturation -----

/// The creature is a young queen whose maturation deadline has passed.
pub open spec fn is_mature(ant: Ant, now: u64) -> bool {
    ant.ant_type == AntType::YoungQueen && ant.maturation_time is Some && now
        >= ant.maturation_time->0
}

/// The state after creature `ant_id` was given the chance to fly: a
/// matured young queen flies as if her colony's owner had sent her, unless
/// the flight is turned down; anybody else stays.
pub open spec fn flown(s: WorldView, ant_id: u32, now: u64) -> WorldView {
    if s.ants.contains(ant_id) && is_mature(s.ants.get(ant_id), now) && s.colonies.contains(
        s.ants.get(ant_id).colony_id,
    ) {
        let ctx = Context {
            sender: s.colonies.get(s.ants.get(ant_id).colony_id).player_id,
            timestamp: now,
        };
        if nuptial_flight_check(s, ctx, ant_id) is None {
            nuptial_flight_next(s, ctx, ant_id)
        } else {
            s
        }
    } else {
        s
    }
}

/// Lets creature `ant_id` fly if it is a matured young queen.
pub fn fly_if_mature(world: &mut World, ant_id: u32, now: u64)
    requires
        old(world)@.wf(),
    ensures
        final(world)@.wf(),
        final(world)@ == flown(old(world)@, ant_id, now),
{
    let ai = match world.ants.find(ant_id) {
        Some(i) => i,
        None => {
            return ;
        },
    };
    let ant = world.ants.rows[ai];
    if ant.ant_type != AntType::YoungQueen {
        return ;
    }
    match ant.maturation_time {
        Some(deadline) => {
            if now < deadline {
                return ;
            }
        },
        None => {
            return ;
        },
    }
    let owner = match world.colonies.find(ant.colony_id) {
        Some(c) => world.colonies.rows[c].player_id,
        None => {
            return ;
        },
    };
    let _ = nuptial_flight(world, Context { sender: owner, timestamp: now }, ant_id);
}

// ----- the tick -----

/// The state after the first `n` of the listed creatures had their chance
/// to fly, one after the other.
pub open spec fn flights(s: WorldView, ids: Seq<u32>, now: u64, n: nat) -> WorldView
    decreases n,
{
    if n == 0 {
        s
    } else {
        flown(flights(s, ids, now, (n - 1) as nat), ids[n - 1], now)
    }
}

/// The state after the first `n` of the listed colonies took their step,
/// one after the other.
pub open spec fn managed_all(s: WorldView, ids: Seq<u32>, now: u64, n: nat) -> WorldView
    decreases n,
{
    if n == 0 {
        s
    } else {
        managed(managed_all(s, ids, now, (n - 1) as nat), ids[n - 1], now)
    }
}

/// The identifiers of all creatures, in table order.
pub open spec fn ant_ids(s: WorldView) -> Seq<u32> {
    s.ants.rows.map_values(|ant: Ant| ant.id)
}

/// The identifiers of all colonies, in table order.
pub open spec fn colony_ids(s: WorldView) -> Seq<u32> {
    s.colonies.rows.map_values(|colony: Colony| colony.id)
}

/// The state after one tick at time `now`: first every creature on record
/// gets its chance to fly, then every colony then on record takes its step.
pub open spec fn colony_ai_tick_next(s: WorldView, now: u64) -> WorldView {
    let after_flights = flights(s, ant_ids(s), now, s.ants.rows.len());
    managed_all(after_flights, colony_ids(after_flights), now, after_flights.colonies.rows.len())
}

/// Runs one tick of the scheduler at time `now`.
pub fn colony_ai_tick(world: &mut World, now: u64)
    requires
        old(world)@.wf(),
    ensures
        final(world)@.wf(),
        final(world)@ == colony_ai_tick_next(old(world)@, now),
{
    let ghost before = world@;
    let mut creatures: Vec<u32> = Vec::new();
    let mut i: usize = 0;
    while i < world.ants.rows.len()
        invariant
            i <= world.ants.rows.len(),
            world@ == before,
            creatures@ == ant_ids(before).take(i as int),
        decreases world.ants.rows.len() - i,
    {
        creatures.push(world.ants.rows[i].id);
        i += 1;
    }
    assert(creatures@ =~= ant_ids(before));
    let mut k: usize = 0;
    while k < creatures.len()
        invariant
            k <= creatures.len(),
            world@.wf(),
            world@ == flights(before, creatures@, now, k as nat),
        decreases creatures.len() - k,
    {
        fly_if_mature(world, creatures[k], now);
        k += 1;
    }
    let ghost after_flights = world@;
    let mut colonies: Vec<u32> = Vec::new();
    let mut i: usize = 0;
    while i < world.colonies.rows.len()
        invariant
            i <= world.colonies.rows.len(),
            world@ == after_flights,
            colonies@ == colony_ids(after_flights).take(i as int),
        decreases world.colonies.rows.len() - i,
    {
        colonies.push(world.colonies.rows[i].id);
        i += 1;
    }
    assert(colonies@ =~= colony_ids(after_flights));
    let mut k: usize = 0;
    while k < colonies.len()
        invariant
            k <= colonies.len(),
            world@.wf(),
            world@ == managed_all(after_flights, colonies@, now, k as nat),
        decreases colonies.len() - k,
    {
        manage_colony(world, colonies[k], now);
        k += 1;
    }
}

} // verus!
