//! Joining the game and founding colonies.

use vstd::prelude::*;
use crate::colony::geometry::{offset, offset_by};
use crate::colony::lifecycle::{hatch, hatched};
use crate::colony::registry::{make_ant, new_ant};
use crate::colony::types::{
    Ant, AntTrait, AntType, Chamber, ChamberType, Colony, Player, PlayerView, Position,
    TaskType,
};
use crate::colony::world::{
    find_player, has_player, healthy, lemma_bounded_push, lemma_count_filter, live_count, owns,
    player_index, World, WorldView,
};
use crate::error::{CommandError, Entity};
use crate::identity::{Context, Identity};
use crate::table::lemma_filter_step;

verus! {

/// Depth at which a standard colony is founded.
pub const STANDARD_DEPTH: i32 = -10_000;

/// Depth at which a respawned or daughter colony is founded.
pub const SHALLOW_DEPTH: i32 = -5_000;

/// A counter one higher, unless it is at its limit.
pub open spec fn bumped(n: u32) -> u32 {
    if n == u32::MAX {
        n
    } else {
        (n + 1) as u32
    }
}

/// The throne room of a new colony.
pub open spec fn throne_room(id: u32, colony_id: u32, home: Position) -> Chamber {
    Chamber {
        id,
        colony_id,
        chamber_type: ChamberType::ThroneRoom,
        position: home,
        level: 1,
        capacity: 1,
    }
}

/// The queen of a new colony: idle, and consuming no jelly.
pub open spec fn founding_queen(
    id: u32,
    colony_id: u32,
    home: Position,
    trait_type: Option<AntTrait>,
    now: u64,
) -> Ant {
    new_ant(id, colony_id, AntType::Queen, home, TaskType::Idle, None, trait_type, None, now)
}

/// The state after `colony` is founded at `home`: the colony's record, its
/// queen and its throne room are added.
pub open spec fn settled(
    s: WorldView,
    colony: Colony,
    home: Position,
    queen_trait: Option<AntTrait>,
    now: u64,
) -> WorldView {
    WorldView {
        colonies: s.colonies.insert(colony),
        ants: s.ants.insert(founding_queen(s.ants.next_id, colony.id, home, queen_trait, now)),
        chambers: s.chambers.insert(throne_room(s.chambers.next_id, colony.id, home)),
        ..s
    }
}

/// The state after the player in position `i` is credited with a founding.
pub open spec fn credited_founding(s: WorldView, i: int) -> WorldView {
    WorldView {
        players: s.players.update(
            i,
            PlayerView { total_colonies: bumped(s.players[i].total_colonies), ..s.players[i] },
        ),
        ..s
    }
}

// ----- create_player -----

/// Why registering a player is turned down: the first test that fails, in the
/// order given here. `None` means it goes ahead.
pub open spec fn create_player_check(s: WorldView, ctx: Context) -> Option<CommandError> {
    if has_player(s.players, ctx.sender) {
        Some(CommandError::InvalidState)
    } else {
        None
    }
}

/// The state after registering a player that went ahead.
pub open spec fn create_player_next(s: WorldView, ctx: Context, username: Seq<char>) -> WorldView {
    WorldView {
        players: s.players.push(
            PlayerView {
                id: ctx.sender,
                username,
                created_at: ctx.timestamp,
                total_colonies: 0,
                resources_gathered: 0,
                generations_survived: 0,
                queens_produced: 0,
                best_colony_score: 0,
            },
        ),
        ..s
    }
}

// ----- create_colony -----

/// The ledger a standard colony starts with: 100 food, 50 water, 5 larvae
/// and 100 jelly. The scheduler manages it until its owner says otherwise.
pub open spec fn standard_colony(s: WorldView, ctx: Context) -> Colony {
    Colony {
        id: s.colonies.next_id,
        player_id: ctx.sender,
        queen_id: Some(s.ants.next_id),
        food: 100_000,
        water: 50_000,
        minerals: 0,
        larvae: 5,
        queen_jelly: 100_000,
        population: 1,
        territory_radius: 50_000,
        created_at: ctx.timestamp,
        ai_enabled: true,
        queen_trait: None,
    }
}

/// Where the `k`-th worker of a standard colony starts: the five stand on a
/// diagonal through `home`, two world units apart.
pub open spec fn worker_post(home: Position, k: int) -> Position {
    offset(home, (2 * k - 4) * 1000, (2 * k - 4) * 1000, 0)
}

/// The state after the first `n` workers of a standard colony have hatched.
pub open spec fn with_workers(
    s: WorldView,
    colony_id: u32,
    home: Position,
    now: u64,
    n: nat,
) -> WorldView
    decreases n,
{
    if n == 0 {
        s
    } else {
        hatched(
            with_workers(s, colony_id, home, now, (n - 1) as nat),
            colony_id,
            AntType::Worker,
            worker_post(home, n - 1),
            TaskType::Idle,
            None,
            None,
            now,
        )
    }
}

/// Why founding a standard colony is turned down: the first test that fails, in the
/// order given here. `None` means it goes ahead.
pub open spec fn create_colony_check(s: WorldView, ctx: Context) -> Option<CommandError> {
    if !has_player(s.players, ctx.sender) {
        Some(CommandError::NotFound(Entity::Player))
    } else if s.colonies.is_full() || s.chambers.is_full() || s.ants.next_id + 6 > u32::MAX {
        Some(CommandError::Exhausted)
    } else {
        None
    }
}

/// The state after founding a standard colony that went ahead.
pub open spec fn create_colony_next(s: WorldView, ctx: Context, x: i32, y: i32) -> WorldView {
    let home = Position { x, y, z: STANDARD_DEPTH };
    credited_founding(
        with_workers(
            settled(s, standard_colony(s, ctx), home, None, ctx.timestamp),
            s.colonies.next_id,
            home,
            ctx.timestamp,
            5,
        ),
        player_index(s.players, ctx.sender),
    )
}

// ----- respawn_as_queen -----

/// Colonies that do not belong to `owner`.
pub open spec fn other_owner(owner: Identity) -> spec_fn(Colony) -> bool {
    |c: Colony| c.player_id != owner
}

/// Creatures that do not belong to a colony of `owner`.
pub open spec fn ant_spared(s: WorldView, owner: Identity) -> spec_fn(Ant) -> bool {
    |a: Ant| !s.owns_colony(owner, a.colony_id)
}

/// Chambers that do not belong to a colony of `owner`.
pub open spec fn chamber_spared(s: WorldView, owner: Identity) -> spec_fn(Chamber) -> bool {
    |c: Chamber| !s.owns_colony(owner, c.colony_id)
}

/// The state after every colony of `owner` is deleted together with its
/// creatures and chambers.
pub open spec fn cleared(s: WorldView, owner: Identity) -> WorldView {
    WorldView {
        colonies: s.colonies.filter(other_owner(owner)),
        ants: s.ants.filter(ant_spared(s, owner)),
        chambers: s.chambers.filter(chamber_spared(s, owner)),
        ..s
    }
}

/// The ledger a respawned colony starts with, before its worker hatches:
/// 10 water and 20 jelly, nothing else.
pub open spec fn minimal_colony(s: WorldView, ctx: Context) -> Colony {
    Colony {
        id: s.colonies.next_id,
        player_id: ctx.sender,
        queen_id: Some(s.ants.next_id),
        food: 0,
        water: 10_000,
        minerals: 0,
        larvae: 0,
        queen_jelly: 20_000,
        population: 1,
        territory_radius: 30_000,
        created_at: ctx.timestamp,
        ai_enabled: false,
        queen_trait: None,
    }
}

/// The respawned colony once its worker has hatched: two creatures, and two
/// units of jelly spent.
pub open spec fn with_first_worker(colony: Colony) -> Colony {
    Colony { population: 2, queen_jelly: 18_000, ..colony }
}

/// Why starting over is turned down: the first test that fails, in the
/// order given here. `None` means it goes ahead.
pub open spec fn respawn_as_queen_check(s: WorldView, ctx: Context) -> Option<CommandError> {
    if !has_player(s.players, ctx.sender) {
        Some(CommandError::NotFound(Entity::Player))
    } else if s.colonies.is_full() || s.chambers.is_full() || s.ants.next_id + 2 > u32::MAX {
        Some(CommandError::Exhausted)
    } else {
        None
    }
}

/// The state after starting over that went ahead.
pub open spec fn respawn_as_queen_next(s: WorldView, ctx: Context, x: i32, y: i32) -> WorldView {
    let home = Position { x, y, z: SHALLOW_DEPTH };
    let colony = minimal_colony(s, ctx);
    let founded = hatched(
        settled(cleared(s, ctx.sender), colony, home, None, ctx.timestamp),
        colony.id,
        AntType::Worker,
        offset(home, 5000, 5000, 0),
        TaskType::Idle,
        None,
        None,
        ctx.timestamp,
    );
    credited_founding(
        WorldView { colonies: founded.colonies.update(with_first_worker(colony)), ..founded },
        player_index(s.players, ctx.sender),
    )
}

/// Adds a colony's record, its queen and its throne room. The record takes
/// the next colony identifier and names the queen, if anybody.
pub fn settle(
    world: &mut World,
    colony: Colony,
    home: Position,
    queen_trait: Option<AntTrait>,
    now: u64,
)
    requires
        old(world)@.wf(),
        !old(world)@.colonies.is_full(),
        !old(world)@.ants.is_full(),
        !old(world)@.chambers.is_full(),
        colony.id == old(world)@.colonies.next_id,
        colony.population <= 1,
        colony.queen_id matches Some(queen_id) ==> queen_id == old(world)@.ants.next_id,
    ensures
        final(world)@.wf(),
        final(world)@ == settled(old(world)@, colony, home, queen_trait, now),
{
    let ghost before = world@;
    world.colonies.insert(colony);
    let queen_id = world.ants.next_id;
    let queen = make_ant(
        queen_id,
        colony.id,
        AntType::Queen,
        home,
        TaskType::Idle,
        None,
        queen_trait,
        None,
        now,
    );
    world.ants.insert(queen);
    let chamber_id = world.chambers.next_id;
    world.chambers.insert(
        Chamber {
            id: chamber_id,
            colony_id: colony.id,
            chamber_type: ChamberType::ThroneRoom,
            position: home,
            level: 1,
            capacity: 1,
        },
    );
    proof {
        lemma_bounded_push(before.colonies.rows, before.ants.rows, queen);
    }
}

/// Credits the player in position `i` with one more colony.
pub fn credit_founding(world: &mut World, i: usize)
    requires
        old(world)@.wf(),
        i < old(world).players.len(),
    ensures
        final(world)@.wf(),
        final(world)@ == credited_founding(old(world)@, i as int),
{
    let ghost before = world@;
    let mut player = world.players.remove(i);
    player.total_colonies = if player.total_colonies == u32::MAX {
        player.total_colonies
    } else {
        player.total_colonies + 1
    };
    world.players.insert(i, player);
    proof {
        assert forall|a: int, b: int| 0 <= a < b < world@.players.len() implies (
        #[trigger] world@.players[a]).id != (#[trigger] world@.players[b]).id by {
            assert(world@.players[a].id == before.players[a].id);
            assert(world@.players[b].id == before.players[b].id);
        }
    }
}

/// Registers the caller as a player with all counters at zero, unless the
/// caller already is one.
pub fn create_player(world: &mut World, ctx: Context, username: String) -> (done: Result<
    (),
    CommandError,
>)
    requires
        old(world)@.wf(),
    ensures
        final(world)@.wf(),
        match create_player_check(old(world)@, ctx) {
            Some(e) => done == Err::<(), CommandError>(e) && final(world)@ == old(world)@,
            None => done == Ok::<(), CommandError>(()) && final(world)@ == create_player_next(
                old(world)@,
                ctx,
                username@,
            ),
        },
{
    if find_player(world, ctx.sender).is_some() {
        return Err(CommandError::InvalidState);
    }
    let ghost before = world@;
    world.players.push(
        Player {
            id: ctx.sender,
            username,
            created_at: ctx.timestamp,
            total_colonies: 0,
            resources_gathered: 0,
            generations_survived: 0,
            queens_produced: 0,
            best_colony_score: 0,
        },
    );
    proof {
        assert forall|a: int, b: int| 0 <= a < b < world@.players.len() implies (
        #[trigger] world@.players[a]).id != (#[trigger] world@.players[b]).id by {
            assert(world@.players[a] == before.players[a]);
            if b < before.players.len() {
                assert(world@.players[b] == before.players[b]);
            }
        }
    }
    Ok(())
}

/// Founds a standard colony at (`x`, `y`), ten world units down: a queen,
/// a throne room and five workers. Returns the colony's identifier.
pub fn create_colony(world: &mut World, ctx: Context, x: i32, y: i32) -> (done: Result<
    u32,
    CommandError,
>)
    requires
        old(world)@.wf(),
    ensures
        final(world)@.wf(),
        match create_colony_check(old(world)@, ctx) {
            Some(e) => done == Err::<u32, CommandError>(e) && final(world)@ == old(world)@,
            None => done == Ok::<u32, CommandError>(old(world)@.colonies.next_id)
                && final(world)@ == create_colony_next(old(world)@, ctx, x, y),
        },
{
    let pi = match find_player(world, ctx.sender) {
        Some(i) => i,
        None => {
            return Err(CommandError::NotFound(Entity::Player));
        },
    };
    if !world.colonies.has_room() || !world.chambers.has_room() || world.ants.next_id > u32::MAX
        - 6 {
        return Err(CommandError::Exhausted);
    }
    let ghost before = world@;
    let now = ctx.timestamp;
    let colony_id = world.colonies.next_id;
    let home = Position { x, y, z: STANDARD_DEPTH };
    let colony = Colony {
        id: colony_id,
        player_id: ctx.sender,
        queen_id: Some(world.ants.next_id),
        food: 100_000,
        water: 50_000,
        minerals: 0,
        larvae: 5,
        queen_jelly: 100_000,
        population: 1,
        territory_radius: 50_000,
        created_at: now,
        ai_enabled: true,
        queen_trait: None,
    };
    settle(world, colony, home, None, now);
    let ghost founded = world@;
    let mut k: u32 = 0;
    while k < 5
        invariant
            k <= 5,
            world@.wf(),
            world@ == with_workers(founded, colony_id, home, now, k as nat),
            world@.ants.next_id == before.ants.next_id + 1 + k,
            world@.colonies.next_id == colony_id + 1,
            before.ants.next_id + 6 <= u32::MAX,
            world.players.len() == before.players.len(),
        decreases 5 - k,
    {
        let step: i32 = (2 * (k as i32) - 4) * 1000;
        hatch(
            world,
            colony_id,
            AntType::Worker,
            offset_by(home, step, step, 0),
            TaskType::Idle,
            None,
            None,
            now,
        );
        k += 1;
    }
    credit_founding(world, pi);
    Ok(colony_id)
}

/// Deletes every colony of `owner` with its creatures and chambers.
pub fn clear(world: &mut World, owner: Identity)
    requires
        old(world)@.wf(),
    ensures
        final(world)@.wf(),
        final(world)@ == cleared(old(world)@, owner),
{
    let ghost before = world@;
    let mut ants: Vec<Ant> = Vec::new();
    let mut i: usize = 0;
    while i < world.ants.rows.len()
        invariant
            i <= world.ants.rows.len(),
            world@ == before,
            before.wf(),
            ants@ == before.ants.rows.take(i as int).filter(ant_spared(before, owner)),
        decreases world.ants.rows.len() - i,
    {
        let ant = world.ants.rows[i];
        proof {
            lemma_filter_step(before.ants.rows, ant_spared(before, owner), i as int);
        }
        if !owns(world, owner, ant.colony_id) {
            ants.push(ant);
        }
        i += 1;
    }
    let mut chambers: Vec<Chamber> = Vec::new();
    let mut i: usize = 0;
    while i < world.chambers.rows.len()
        invariant
            i <= world.chambers.rows.len(),
            world@ == before,
            before.wf(),
            chambers@ == before.chambers.rows.take(i as int).filter(
                chamber_spared(before, owner),
            ),
        decreases world.chambers.rows.len() - i,
    {
        let chamber = world.chambers.rows[i];
        proof {
            lemma_filter_step(before.chambers.rows, chamber_spared(before, owner), i as int);
        }
        if !owns(world, owner, chamber.colony_id) {
            chambers.push(chamber);
        }
        i += 1;
    }
    let mut colonies: Vec<Colony> = Vec::new();
    let mut i: usize = 0;
    while i < world.colonies.rows.len()
        invariant
            i <= world.colonies.rows.len(),
            world@ == before,
            colonies@ == before.colonies.rows.take(i as int).filter(other_owner(owner)),
        decreases world.colonies.rows.len() - i,
    {
        let colony = world.colonies.rows[i];
        proof {
            lemma_filter_step(before.colonies.rows, other_owner(owner), i as int);
        }
        if colony.player_id != owner {
            colonies.push(colony);
        }
        i += 1;
    }
    proof {
        assert(before.ants.rows.take(before.ants.rows.len() as int) =~= before.ants.rows);
        assert(before.chambers.rows.take(before.chambers.rows.len() as int)
            =~= before.chambers.rows);
        assert(before.colonies.rows.take(before.colonies.rows.len() as int)
            =~= before.colonies.rows);
    }
    world.ants.rows = ants;
    world.chambers.rows = chambers;
    world.colonies.rows = colonies;
    proof {
        let after = cleared(before, owner);
        assert(world@.players == before.players);
        assert(world@ == after);
        before.colonies.lemma_filter(other_owner(owner));
        before.ants.lemma_filter(ant_spared(before, owner));
        before.chambers.lemma_filter(chamber_spared(before, owner));
        assert forall|i: int| 0 <= i < after.ants.rows.len() implies healthy(
            #[trigger] after.ants.rows[i],
        ) by {
            let id = after.ants.rows[i].id;
            let k = before.ants.index_of(id);
            assert(healthy(before.ants.rows[k]));
        }
        assert forall|i: int| 0 <= i < after.colonies.rows.len() implies (
        #[trigger] after.colonies.rows[i]).population <= live_count(
            after.ants.rows,
            after.colonies.rows[i].id,
        ) by {
            let colony = after.colonies.rows[i];
            let k = before.colonies.index_of(colony.id);
            assert(before.colonies.rows[k].population <= live_count(
                before.ants.rows,
                before.colonies.rows[k].id,
            ));
            lemma_count_filter(before.ants.rows, ant_spared(before, owner), colony.id);
        }
    }
}

/// Starts the caller over: every colony the caller has is deleted with its
/// creatures and chambers, and a minimal colony is founded at (`x`, `y`),
/// five world units down, with a queen, a throne room and one worker.
/// Returns the new colony's identifier.
pub fn respawn_as_queen(world: &mut World, ctx: Context, x: i32, y: i32) -> (done: Result<
    u32,
    CommandError,
>)
    requires
        old(world)@.wf(),
    ensures
        final(world)@.wf(),
        match respawn_as_queen_check(old(world)@, ctx) {
            Some(e) => done == Err::<u32, CommandError>(e) && final(world)@ == old(world)@,
            None => done == Ok::<u32, CommandError>(old(world)@.colonies.next_id)
                && final(world)@ == respawn_as_queen_next(old(world)@, ctx, x, y),
        },
{
    let pi = match find_player(world, ctx.sender) {
        Some(i) => i,
        None => {
            return Err(CommandError::NotFound(Entity::Player));
        },
    };
    if !world.colonies.has_room() || !world.chambers.has_room() || world.ants.next_id > u32::MAX
        - 2 {
        return Err(CommandError::Exhausted);
    }
    let ghost before = world@;
    let now = ctx.timestamp;
    let home = Position { x, y, z: SHALLOW_DEPTH };
    clear(world, ctx.sender);
    let colony = Colony {
        id: world.colonies.next_id,
        player_id: ctx.sender,
        queen_id: Some(world.ants.next_id),
        food: 0,
        water: 10_000,
        minerals: 0,
        larvae: 0,
        queen_jelly: 20_000,
        population: 1,
        territory_radius: 30_000,
        created_at: now,
        ai_enabled: false,
        queen_trait: None,
    };
    settle(world, colony, home, None, now);
    hatch(
        world,
        colony.id,
        AntType::Worker,
        offset_by(home, 5000, 5000, 0),
        TaskType::Idle,
        None,
        None,
        now,
    );
    let ghost founded = world@;
    let at = world.colonies.rows.len() - 1;
    world.colonies.replace(at, Colony { population: 2, queen_jelly: 18_000, ..colony });
    proof {
        assert(world@.players == founded.players);
        assert forall|i: int| 0 <= i < world@.colonies.rows.len() implies (
        #[trigger] world@.colonies.rows[i]).population <= live_count(
            world@.ants.rows,
            world@.colonies.rows[i].id,
        ) by {
            assert(founded.colonies.rows[i].population <= live_count(
                founded.ants.rows,
                founded.colonies.rows[i].id,
            ));
            if i == at {
                let herd = founded.ants.rows;
                assert(herd.drop_last().last().colony_id == colony.id);
                assert(herd.last().colony_id == colony.id);
                reveal_with_fuel(live_count, 3);
            }
        }
    }
    credit_founding(world, pi);
    Ok(colony.id)
}

} // verus!
