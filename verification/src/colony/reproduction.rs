//! The nuptial flight: a young queen leaves and founds a colony whose start
//! depends on her trait and on how many generations her line has survived.

use vstd::prelude::*;
use crate::colony::economy::{colony_points, score_of};
use crate::colony::founding::{bumped, settle, settled, SHALLOW_DEPTH};
use crate::colony::lifecycle::{bury, buried};
use crate::colony::rng::{rng_draw, rng_step};
use crate::colony::types::{AntTrait, AntType, Colony, PlayerView, Position};
use crate::colony::world::{
    check_ant, find_player, has_player, player_index, World, WorldView,
};
use crate::error::{CommandError, Entity};
use crate::identity::{Context, Identity};

verus! {

/// Side of the square daughter colonies land in: 300 world units.
pub const FLIGHT_SPAN: u32 = 300;

/// Jelly a daughter colony starts with before generations count: 20 units,
/// a fifth more if the young queen is fertile, half more if she is a
/// survivor. A queen with any other trait, or with none, brings no bonus.
pub open spec fn trait_base_jelly(inherited: Option<AntTrait>) -> u64 {
    match inherited {
        Some(AntTrait::Fertile) => 24_000,
        Some(AntTrait::Survivor) => 30_000,
        _ => 20_000,
    }
}

/// Larvae a daughter colony starts with beyond the first: one if the young
/// queen is fertile, two if she is a matriarch, none otherwise.
pub open spec fn trait_bonus_larvae(inherited: Option<AntTrait>) -> u32 {
    match inherited {
        Some(AntTrait::Fertile) => 1,
        Some(AntTrait::Matriarch) => 2,
        _ => 0,
    }
}

/// What one unit is worth after `generations` generations, in hundredths:
/// five hundredths more per generation.
pub open spec fn generation_percent(generations: u32) -> int {
    100 + 5 * generations
}

/// Where a daughter colony lands, given the generator's draw: somewhere in
/// a square of 300 world units around the origin, five world units down.
pub open spec fn landing_site(drawn: u32) -> Position {
    Position {
        x: ((drawn % 1000) * 300 - 150_000) as i32,
        y: ((drawn % 1337) * 300_000 / 1337 - 150_000) as i32,
        z: SHALLOW_DEPTH,
    }
}

/// The ledger of a daughter colony: 20 food, 10 water and the jelly of the
/// young queen's trait, each scaled by the generations survived, and one
/// larva plus the larvae of the trait. The colony records the trait the
/// young queen had, if she had one. Its owner manages it by hand.
pub open spec fn daughter_colony(
    id: u32,
    queen_id: u32,
    owner: Identity,
    inherited: Option<AntTrait>,
    generations: u32,
    now: u64,
) -> Colony {
    Colony {
        id,
        player_id: owner,
        queen_id: Some(queen_id),
        food: (200 * generation_percent(generations)) as u64,
        water: (100 * generation_percent(generations)) as u64,
        minerals: 0,
        larvae: (1 + trait_bonus_larvae(inherited)) as u32,
        queen_jelly: (trait_base_jelly(inherited) / 100 * generation_percent(generations)) as u64,
        population: 1,
        territory_radius: 30_000,
        created_at: now,
        ai_enabled: false,
        queen_trait: inherited,
    }
}

/// The player after a young queen of colony `parent` has flown.
pub open spec fn honoured(player: PlayerView, parent: Colony) -> PlayerView {
    PlayerView {
        queens_produced: bumped(player.queens_produced),
        generations_survived: bumped(player.generations_survived),
        best_colony_score: if colony_points(parent) > player.best_colony_score {
            colony_points(parent) as u64
        } else {
            player.best_colony_score
        },
        ..player
    }
}

/// Why a nuptial flight is turned down: the first test that fails, in the
/// order given here. `None` means it goes ahead.
pub open spec fn nuptial_flight_check(s: WorldView, ctx: Context, queen_id: u32) -> Option<
    CommandError,
> {
    if s.ant_check(ctx, queen_id) is Some {
        s.ant_check(ctx, queen_id)
    } else if s.ants.get(queen_id).ant_type != AntType::YoungQueen {
        Some(CommandError::InvalidState)
    } else if !has_player(s.players, ctx.sender) {
        Some(CommandError::NotFound(Entity::Player))
    } else if s.colonies.is_full() || s.ants.is_full() || s.chambers.is_full() {
        Some(CommandError::Exhausted)
    } else {
        None
    }
}

/// The owner's counters go up, the young queen leaves her colony, and a
/// daughter colony with a queen and a throne room appears where she lands.
/// The new queen keeps the trait the young queen had, or none.
pub open spec fn nuptial_flight_next(s: WorldView, ctx: Context, queen_id: u32) -> WorldView {
    let queen = s.ants.get(queen_id);
    let parent = s.colonies.get(queen.colony_id);
    let i = player_index(s.players, ctx.sender);
    let player = honoured(s.players[i], parent);
    let left = buried(WorldView { players: s.players.update(i, player), ..s }, queen_id);
    settled(
        WorldView { rng: rng_step(s.rng), ..left },
        daughter_colony(
            s.colonies.next_id,
            s.ants.next_id,
            ctx.sender,
            queen.trait_type,
            player.generations_survived,
            ctx.timestamp,
        ),
        landing_site(rng_draw(s.rng)),
        queen.trait_type,
        ctx.timestamp,
    )
}

fn bump(n: u32) -> (m: u32)
    ensures
        m == bumped(n),
{
    if n == u32::MAX {
        n
    } else {
        n + 1
    }
}

fn site_for(drawn: u32) -> (site: Position)
    ensures
        site == landing_site(drawn),
{
    let east: i64 = (drawn % 1000) as i64 * 300 - 150_000;
    let north: i64 = (drawn % 1337) as i64 * 300_000 / 1337 - 150_000;
    Position { x: east as i32, y: north as i32, z: SHALLOW_DEPTH }
}

fn found_daughter(
    id: u32,
    queen_id: u32,
    owner: Identity,
    inherited: Option<AntTrait>,
    generations: u32,
    now: u64,
) -> (colony: Colony)
    ensures
        colony == daughter_colony(id, queen_id, owner, inherited, generations, now),
{
    let percent: u64 = 100 + 5 * (generations as u64);
    let base: u64 = match inherited {
        Some(AntTrait::Fertile) => 240,
        Some(AntTrait::Survivor) => 300,
        _ => 200,
    };
    let bonus: u32 = match inherited {
        Some(AntTrait::Fertile) => 1,
        Some(AntTrait::Matriarch) => 2,
        _ => 0,
    };
    Colony {
        id,
        player_id: owner,
        queen_id: Some(queen_id),
        food: 200 * percent,
        water: 100 * percent,
        minerals: 0,
        larvae: 1 + bonus,
        queen_jelly: base * percent,
        population: 1,
        territory_radius: 30_000,
        created_at: now,
        ai_enabled: false,
        queen_trait: inherited,
    }
}

/// Sends young queen `queen_id` on her flight. Returns the identifier of
/// the colony she founds.
pub fn nuptial_flight(world: &mut World, ctx: Context, queen_id: u32) -> (done: Result<
    u32,
    CommandError,
>)
    requires
        old(world)@.wf(),
    ensures
        final(world)@.wf(),
        match nuptial_flight_check(old(world)@, ctx, queen_id) {
            Some(e) => done == Err::<u32, CommandError>(e) && final(world)@ == old(world)@,
            None => done == Ok::<u32, CommandError>(old(world)@.colonies.next_id)
                && final(world)@ == nuptial_flight_next(old(world)@, ctx, queen_id),
        },
{
    let (ai, ci) = match check_ant(world, ctx, queen_id) {
        Ok(found) => found,
        Err(e) => {
            return Err(e);
        },
    };
    let queen = world.ants.rows[ai];
    if queen.ant_type != AntType::YoungQueen {
        return Err(CommandError::InvalidState);
    }
    let pi = match find_player(world, ctx.sender) {
        Some(i) => i,
        None => {
            return Err(CommandError::NotFound(Entity::Player));
        },
    };
    if !world.colonies.has_room() || !world.ants.has_room() || !world.chambers.has_room() {
        return Err(CommandError::Exhausted);
    }
    let ghost before = world@;
    let parent = world.colonies.rows[ci];
    let points = score_of(&parent);
    let mut player = world.players.remove(pi);
    player.queens_produced = bump(player.queens_produced);
    player.generations_survived = bump(player.generations_survived);
    if points > player.best_colony_score {
        player.best_colony_score = points;
    }
    let generations = player.generations_survived;
    world.players.insert(pi, player);
    proof {
        assert(world@.players =~= before.players.update(
            pi as int,
            honoured(before.players[pi as int], parent),
        ));
    }
    bury(world, ai);
    let drawn = world.rng.next();
    let colony = found_daughter(
        world.colonies.next_id,
        world.ants.next_id,
        ctx.sender,
        queen.trait_type,
        generations,
        ctx.timestamp,
    );
    settle(world, colony, site_for(drawn), queen.trait_type, ctx.timestamp);
    Ok(colony.id)
}

} // verus!
