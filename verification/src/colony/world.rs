//! The state of the simulation and what holds of it between commands.

use vstd::prelude::*;
use crate::colony::rng::{rng_draw, rng_step, Rng};
use crate::colony::types::{
    Ant, Battle, Chamber, Colony, DiscoveredResource, ExploredTerritory, Pheromone, Player,
    PlayerView, Position, ResourceNode, ResourceType, Tunnel,
};
use crate::error::{CommandError, Entity};
use crate::identity::{Context, Identity};
use crate::table::{Table, TableView};

verus! {

/// Every record of the simulation, and the generator behind its draws.
pub struct World {
    pub players: Vec<Player>,
    pub colonies: Table<Colony>,
    pub ants: Table<Ant>,
    pub chambers: Table<Chamber>,
    pub tunnels: Table<Tunnel>,
    pub resource_nodes: Table<ResourceNode>,
    pub pheromones: Table<Pheromone>,
    pub battles: Table<Battle>,
    pub explored: Table<ExploredTerritory>,
    pub discovered: Table<DiscoveredResource>,
    pub rng: Rng,
}

/// The mathematical content of a [`World`].
#[verifier::ext_equal]
pub struct WorldView {
    pub players: Seq<PlayerView>,
    pub colonies: TableView<Colony>,
    pub ants: TableView<Ant>,
    pub chambers: TableView<Chamber>,
    pub tunnels: TableView<Tunnel>,
    pub resource_nodes: TableView<ResourceNode>,
    pub pheromones: TableView<Pheromone>,
    pub battles: TableView<Battle>,
    pub explored: TableView<ExploredTerritory>,
    pub discovered: TableView<DiscoveredResource>,
    pub rng: u64,
}

/// The players as their mathematical content.
pub open spec fn player_views(players: Seq<Player>) -> Seq<PlayerView> {
    players.map_values(|p: Player| p@)
}

impl View for World {
    type V = WorldView;

    open spec fn view(&self) -> WorldView {
        WorldView {
            players: player_views(self.players@),
            colonies: self.colonies@,
            ants: self.ants@,
            chambers: self.chambers@,
            tunnels: self.tunnels@,
            resource_nodes: self.resource_nodes@,
            pheromones: self.pheromones@,
            battles: self.battles@,
            explored: self.explored@,
            discovered: self.discovered@,
            rng: self.rng.state,
        }
    }
}

/// Number of creatures in `ants` that belong to colony `colony_id`.
pub open spec fn live_count(ants: Seq<Ant>, colony_id: u32) -> nat
    decreases ants.len(),
{
    if ants.len() == 0 {
        0
    } else {
        live_count(ants.drop_last(), colony_id) + if ants.last().colony_id == colony_id {
            1nat
        } else {
            0nat
        }
    }
}

/// A stored creature is alive and not healthier than its type allows.
pub open spec fn healthy(ant: Ant) -> bool {
    1 <= ant.health <= ant.max_health
}

/// No colony records more creatures than it has.
pub open spec fn population_bounded(colonies: Seq<Colony>, ants: Seq<Ant>) -> bool {
    forall|i: int|
        0 <= i < colonies.len() ==> (#[trigger] colonies[i]).population <= live_count(
            ants,
            colonies[i].id,
        )
}

/// Some player has identity `id`.
pub open spec fn has_player(players: Seq<PlayerView>, id: Identity) -> bool {
    exists|i: int| 0 <= i < players.len() && (#[trigger] players[i]).id == id
}

/// Position of the player with identity `id` (meaningful when there is one).
pub open spec fn player_index(players: Seq<PlayerView>, id: Identity) -> int {
    choose|i: int| 0 <= i < players.len() && (#[trigger] players[i]).id == id
}

/// No two players share an identity.
pub open spec fn players_distinct(players: Seq<PlayerView>) -> bool {
    forall|i: int, j: int|
        0 <= i < j < players.len() ==> (#[trigger] players[i]).id != (#[trigger] players[j]).id
}

/// A creature belongs to a colony whose identifier has been handed out.
pub open spec fn homed(ant: Ant, next_colony: u32) -> bool {
    ant.colony_id < next_colony
}

/// A colony names as its queen, if anybody, a creature whose identifier has
/// been handed out.
pub open spec fn crowned(colony: Colony, next_ant: u32) -> bool {
    colony.queen_id matches Some(queen_id) ==> queen_id < next_ant
}

/// No record points at an identifier that is still to be handed out: not a
/// creature at its colony, and not a colony at its queen.
pub open spec fn references_known(colonies: TableView<Colony>, ants: TableView<Ant>) -> bool {
    &&& forall|i: int| 0 <= i < ants.rows.len() ==> homed(#[trigger] ants.rows[i], colonies.next_id)
    &&& forall|i: int|
        0 <= i < colonies.rows.len() ==> crowned(#[trigger] colonies.rows[i], ants.next_id)
}

impl WorldView {
    /// What holds between commands: tables are well formed, no two players
    /// share an identity, every stored creature is alive, no colony records
    /// more creatures than it has, and no record points at a colony or a
    /// queen whose identifier is still to be handed out.
    pub open spec fn wf(self) -> bool {
        &&& self.colonies.wf()
        &&& self.ants.wf()
        &&& self.chambers.wf()
        &&& self.tunnels.wf()
        &&& self.resource_nodes.wf()
        &&& self.pheromones.wf()
        &&& self.battles.wf()
        &&& self.explored.wf()
        &&& self.discovered.wf()
        &&& players_distinct(self.players)
        &&& forall|i: int| 0 <= i < self.ants.rows.len() ==> healthy(#[trigger] self.ants.rows[i])
        &&& population_bounded(self.colonies.rows, self.ants.rows)
        &&& references_known(self.colonies, self.ants)
    }

    /// Colony `colony_id` exists and belongs to `owner`.
    pub open spec fn owns_colony(self, owner: Identity, colony_id: u32) -> bool {
        self.colonies.contains(colony_id) && self.colonies.get(colony_id).player_id == owner
    }

    /// The first reason the caller may not command colony `colony_id`, if any.
    pub open spec fn colony_check(self, ctx: Context, colony_id: u32) -> Option<CommandError> {
        if !self.colonies.contains(colony_id) {
            Some(CommandError::NotFound(Entity::Colony))
        } else if self.colonies.get(colony_id).player_id != ctx.sender {
            Some(CommandError::Unauthorized)
        } else {
            None
        }
    }

    /// The first reason the caller may not command creature `ant_id`, if any.
    pub open spec fn ant_check(self, ctx: Context, ant_id: u32) -> Option<CommandError> {
        if !self.ants.contains(ant_id) {
            Some(CommandError::NotFound(Entity::Ant))
        } else {
            self.colony_check(ctx, self.ants.get(ant_id).colony_id)
        }
    }

    /// The recorded population of every colony equals its number of creatures.
    pub open spec fn population_exact(self) -> bool {
        forall|i: int|
            0 <= i < self.colonies.rows.len() ==> (#[trigger] self.colonies.rows[i]).population
                == live_count(self.ants.rows, self.colonies.rows[i].id)
    }
}

/// One creature more counts for its own colony and for no other.
pub proof fn lemma_count_push(ants: Seq<Ant>, ant: Ant, colony_id: u32)
    ensures
        live_count(ants.push(ant), colony_id) == live_count(ants, colony_id) + if ant.colony_id
            == colony_id {
            1nat
        } else {
            0nat
        },
{
    assert(ants.push(ant).drop_last() =~= ants);
}

/// No colony has more creatures than there are.
pub proof fn lemma_count_bound(ants: Seq<Ant>, colony_id: u32)
    ensures
        live_count(ants, colony_id) <= ants.len(),
    decreases ants.len(),
{
    if ants.len() > 0 {
        lemma_count_bound(ants.drop_last(), colony_id);
    }
}

/// Two herds whose creatures belong to the same colonies, place by place,
/// count the same for every colony.
pub proof fn lemma_count_same_colonies(before: Seq<Ant>, after: Seq<Ant>, colony_id: u32)
    requires
        before.len() == after.len(),
        forall|i: int|
            0 <= i < before.len() ==> (#[trigger] before[i]).colony_id == after[i].colony_id,
    ensures
        live_count(before, colony_id) == live_count(after, colony_id),
    decreases before.len(),
{
    if before.len() > 0 {
        assert(before.last().colony_id == after[after.len() - 1].colony_id);
        assert forall|i: int| 0 <= i < before.drop_last().len() implies (
        #[trigger] before.drop_last()[i]).colony_id == after.drop_last()[i].colony_id by {
            assert(before[i].colony_id == after[i].colony_id);
        }
        lemma_count_same_colonies(before.drop_last(), after.drop_last(), colony_id);
    }
}

/// One creature less counts for its own colony and for no other.
pub proof fn lemma_count_remove(ants: Seq<Ant>, k: int, colony_id: u32)
    requires
        0 <= k < ants.len(),
    ensures
        live_count(ants, colony_id) == live_count(ants.remove(k), colony_id) + if ants[k].colony_id
            == colony_id {
            1nat
        } else {
            0nat
        },
    decreases ants.len(),
{
    if k == ants.len() - 1 {
        assert(ants.remove(k) =~= ants.drop_last());
    } else {
        lemma_count_remove(ants.drop_last(), k, colony_id);
        assert(ants.remove(k).drop_last() =~= ants.drop_last().remove(k));
        assert(ants.remove(k).last() == ants.last());
    }
}

/// A colony that no creature names counts no creature.
pub proof fn lemma_count_none(ants: Seq<Ant>, colony_id: u32)
    requires
        forall|i: int| 0 <= i < ants.len() ==> (#[trigger] ants[i]).colony_id != colony_id,
    ensures
        live_count(ants, colony_id) == 0,
    decreases ants.len(),
{
    if ants.len() > 0 {
        assert forall|i: int| 0 <= i < ants.drop_last().len() implies (
        #[trigger] ants.drop_last()[i]).colony_id != colony_id by {
            assert(ants[i].colony_id != colony_id);
        }
        lemma_count_none(ants.drop_last(), colony_id);
        assert(ants.last().colony_id != colony_id);
    }
}

/// Dropping creatures of other colonies leaves a colony's count as it was.
pub proof fn lemma_count_filter(ants: Seq<Ant>, keep: spec_fn(Ant) -> bool, colony_id: u32)
    requires
        forall|i: int|
            0 <= i < ants.len() && (#[trigger] ants[i]).colony_id == colony_id ==> keep(ants[i]),
    ensures
        live_count(ants.filter(keep), colony_id) == live_count(ants, colony_id),
    decreases ants.len(),
{
    reveal(Seq::filter);
    if ants.len() > 0 {
        assert forall|i: int|
            0 <= i < ants.drop_last().len() && (#[trigger] ants.drop_last()[i]).colony_id
                == colony_id implies keep(ants.drop_last()[i]) by {
            assert(ants[i].colony_id == colony_id);
        }
        lemma_count_filter(ants.drop_last(), keep, colony_id);
        if keep(ants.last()) {
            lemma_count_push(ants.drop_last().filter(keep), ants.last(), colony_id);
        } else {
            assert(ants.last().colony_id != colony_id);
        }
    }
}

/// A birth into any colony leaves the population bound in place.
pub proof fn lemma_bounded_push(colonies: Seq<Colony>, ants: Seq<Ant>, ant: Ant)
    requires
        population_bounded(colonies, ants),
    ensures
        population_bounded(colonies, ants.push(ant)),
{
    assert forall|i: int| 0 <= i < colonies.len() implies (#[trigger] colonies[i]).population
        <= live_count(ants.push(ant), colonies[i].id) by {
        lemma_count_push(ants, ant, colonies[i].id);
    }
}

/// Changes to creatures that keep each in its colony leave the bound in place.
pub proof fn lemma_bounded_same(colonies: Seq<Colony>, before: Seq<Ant>, after: Seq<Ant>)
    requires
        population_bounded(colonies, before),
        before.len() == after.len(),
        forall|i: int|
            0 <= i < before.len() ==> (#[trigger] before[i]).colony_id == after[i].colony_id,
    ensures
        population_bounded(colonies, after),
{
    assert forall|i: int| 0 <= i < colonies.len() implies (#[trigger] colonies[i]).population
        <= live_count(after, colonies[i].id) by {
        lemma_count_same_colonies(before, after, colonies[i].id);
    }
}

/// A birth recorded by its colony leaves the bound in place.
pub proof fn lemma_bounded_birth(
    colonies: Seq<Colony>,
    ants: Seq<Ant>,
    k: int,
    colony: Colony,
    ant: Ant,
)
    requires
        population_bounded(colonies, ants),
        0 <= k < colonies.len(),
        colony.id == colonies[k].id,
        ant.colony_id == colony.id,
        colony.population <= colonies[k].population + 1,
    ensures
        population_bounded(colonies.update(k, colony), ants.push(ant)),
{
    assert forall|i: int| 0 <= i < colonies.len() implies (#[trigger] colonies.update(
        k,
        colony,
    )[i]).population <= live_count(ants.push(ant), colonies.update(k, colony)[i].id) by {
        assert(colonies[i].population <= live_count(ants, colonies[i].id));
        lemma_count_push(ants, ant, colonies[i].id);
    }
}

/// Counting one creature more either adds it or changes nothing.
pub proof fn lemma_count_step(ants: Seq<Ant>, i: int, colony_id: u32)
    requires
        0 <= i < ants.len(),
    ensures
        live_count(ants.take(i + 1), colony_id) == live_count(ants.take(i), colony_id)
            + if ants[i].colony_id == colony_id {
            1nat
        } else {
            0nat
        },
{
    assert(ants.take(i + 1).drop_last() =~= ants.take(i));
}

/// Number of creatures that belong to colony `colony_id`.
pub fn count_creatures(world: &World, colony_id: u32) -> (count: usize)
    ensures
        count == live_count(world@.ants.rows, colony_id),
{
    let mut count: usize = 0;
    let mut i: usize = 0;
    while i < world.ants.rows.len()
        invariant
            i <= world.ants.rows.len(),
            count <= i,
            count == live_count(world@.ants.rows.take(i as int), colony_id),
        decreases world.ants.rows.len() - i,
    {
        proof {
            lemma_count_step(world@.ants.rows, i as int, colony_id);
        }
        if world.ants.rows[i].colony_id == colony_id {
            count += 1;
        }
        i += 1;
    }
    assert(world@.ants.rows.take(world.ants.rows.len() as int) =~= world@.ants.rows);
    count
}

fn players_are_distinct(world: &World) -> (ok: bool)
    ensures
        ok == players_distinct(world@.players),
{
    let mut j: usize = 0;
    while j < world.players.len()
        invariant
            j <= world.players.len(),
            forall|a: int, b: int|
                0 <= a < b < j ==> (#[trigger] world@.players[a]).id != (
                #[trigger] world@.players[b]).id,
        decreases world.players.len() - j,
    {
        let mut i: usize = 0;
        while i < j
            invariant
                i <= j < world.players.len(),
                forall|a: int|
                    0 <= a < i ==> (#[trigger] world@.players[a]).id != world@.players[j as int].id,
            decreases j - i,
        {
            if world.players[i].id == world.players[j].id {
                assert(world@.players[i as int].id == world@.players[j as int].id);
                return false;
            }
            i += 1;
        }
        j += 1;
    }
    true
}

fn creatures_are_healthy(world: &World) -> (ok: bool)
    ensures
        ok == forall|i: int|
            0 <= i < world@.ants.rows.len() ==> healthy(#[trigger] world@.ants.rows[i]),
{
    let mut i: usize = 0;
    while i < world.ants.rows.len()
        invariant
            i <= world.ants.rows.len(),
            forall|k: int| 0 <= k < i ==> healthy(#[trigger] world@.ants.rows[k]),
        decreases world.ants.rows.len() - i,
    {
        let ant = &world.ants.rows[i];
        if ant.health < 1 || ant.health > ant.max_health {
            assert(!healthy(world@.ants.rows[i as int]));
            return false;
        }
        i += 1;
    }
    true
}

fn populations_are_bounded(world: &World) -> (ok: bool)
    ensures
        ok == population_bounded(world@.colonies.rows, world@.ants.rows),
{
    let mut i: usize = 0;
    while i < world.colonies.rows.len()
        invariant
            i <= world.colonies.rows.len(),
            forall|k: int|
                0 <= k < i ==> (#[trigger] world@.colonies.rows[k]).population <= live_count(
                    world@.ants.rows,
                    world@.colonies.rows[k].id,
                ),
        decreases world.colonies.rows.len() - i,
    {
        let colony = &world.colonies.rows[i];
        if colony.population as usize > count_creatures(world, colony.id) {
            return false;
        }
        i += 1;
    }
    true
}

fn references_are_known(world: &World) -> (ok: bool)
    ensures
        ok == references_known(world@.colonies, world@.ants),
{
    let mut i: usize = 0;
    while i < world.ants.rows.len()
        invariant
            i <= world.ants.rows.len(),
            forall|k: int|
                0 <= k < i ==> homed(#[trigger] world@.ants.rows[k], world@.colonies.next_id),
        decreases world.ants.rows.len() - i,
    {
        if world.ants.rows[i].colony_id >= world.colonies.next_id {
            assert(!homed(world@.ants.rows[i as int], world@.colonies.next_id));
            return false;
        }
        i += 1;
    }
    let mut i: usize = 0;
    while i < world.colonies.rows.len()
        invariant
            i <= world.colonies.rows.len(),
            forall|k: int|
                0 <= k < world@.ants.rows.len() ==> homed(
                    #[trigger] world@.ants.rows[k],
                    world@.colonies.next_id,
                ),
            forall|k: int|
                0 <= k < i ==> crowned(#[trigger] world@.colonies.rows[k], world@.ants.next_id),
        decreases world.colonies.rows.len() - i,
    {
        match world.colonies.rows[i].queen_id {
            Some(queen_id) => {
                if queen_id >= world.ants.next_id {
                    assert(!crowned(world@.colonies.rows[i as int], world@.ants.next_id));
                    return false;
                }
            },
            None => {},
        }
        i += 1;
    }
    true
}

/// Checks everything the commands rely on. A world built by [`init`] and
/// changed only through commands always passes; a world put together from
/// stored records should be checked before the first command.
pub fn is_well_formed(world: &World) -> (ok: bool)
    ensures
        ok == world@.wf(),
{
    world.colonies.is_well_formed() && world.ants.is_well_formed()
        && world.chambers.is_well_formed() && world.tunnels.is_well_formed()
        && world.resource_nodes.is_well_formed() && world.pheromones.is_well_formed()
        && world.battles.is_well_formed() && world.explored.is_well_formed()
        && world.discovered.is_well_formed() && players_are_distinct(world)
        && creatures_are_healthy(world) && populations_are_bounded(world)
        && references_are_known(world)
}

/// Position of the player with identity `id`, if there is one.
pub fn find_player(world: &World, id: Identity) -> (found: Option<usize>)
    requires
        world@.wf(),
    ensures
        found is Some == has_player(world@.players, id),
        found matches Some(i) ==> i < world.players.len() && i == player_index(world@.players, id)
            && world.players[i as int].id == id,
{
    let mut i: usize = 0;
    while i < world.players.len()
        invariant
            i <= world.players.len(),
            world@.wf(),
            forall|k: int| 0 <= k < i ==> (#[trigger] world@.players[k]).id != id,
        decreases world.players.len() - i,
    {
        if world.players[i].id == id {
            proof {
                let players = world@.players;
                let j = player_index(players, id);
                if j < i {
                    assert(players[j].id != players[i as int].id);
                } else if i < j {
                    assert(players[i as int].id != players[j].id);
                }
            }
            return Some(i);
        }
        i += 1;
    }
    None
}

/// Finds colony `colony_id` and checks that the caller owns it.
pub fn check_colony(world: &World, ctx: Context, colony_id: u32) -> (checked: Result<
    usize,
    CommandError,
>)
    requires
        world@.wf(),
    ensures
        match world@.colony_check(ctx, colony_id) {
            Some(e) => checked == Err::<usize, CommandError>(e),
            None => checked matches Ok(i) && i < world.colonies.rows.len() && i
                == world@.colonies.index_of(colony_id) && world.colonies.rows[i as int]
                == world@.colonies.get(colony_id),
        },
{
    match world.colonies.find(colony_id) {
        None => Err(CommandError::NotFound(Entity::Colony)),
        Some(i) => {
            if world.colonies.rows[i].player_id != ctx.sender {
                Err(CommandError::Unauthorized)
            } else {
                Ok(i)
            }
        },
    }
}

/// Finds creature `ant_id` and its colony, and checks that the caller owns
/// the colony. Returns the positions of the creature and of the colony.
pub fn check_ant(world: &World, ctx: Context, ant_id: u32) -> (checked: Result<
    (usize, usize),
    CommandError,
>)
    requires
        world@.wf(),
    ensures
        match world@.ant_check(ctx, ant_id) {
            Some(e) => checked == Err::<(usize, usize), CommandError>(e),
            None => checked matches Ok((a, c)) && a < world.ants.rows.len() && a
                == world@.ants.index_of(ant_id) && world.ants.rows[a as int] == world@.ants.get(
                ant_id,
            ) && c < world.colonies.rows.len() && c == world@.colonies.index_of(
                world@.ants.get(ant_id).colony_id,
            ) && world.colonies.rows[c as int] == world@.colonies.get(
                world@.ants.get(ant_id).colony_id,
            ),
        },
{
    match world.ants.find(ant_id) {
        None => Err(CommandError::NotFound(Entity::Ant)),
        Some(a) => {
            match check_colony(world, ctx, world.ants.rows[a].colony_id) {
                Ok(c) => Ok((a, c)),
                Err(e) => Err(e),
            }
        },
    }
}

/// Whether colony `colony_id` exists and belongs to `owner`.
pub fn owns(world: &World, owner: Identity, colony_id: u32) -> (owned: bool)
    requires
        world@.wf(),
    ensures
        owned == world@.owns_colony(owner, colony_id),
{
    match world.colonies.find(colony_id) {
        Some(i) => world.colonies.rows[i].player_id == owner,
        None => false,
    }
}

/// Writes back the colony in position `at`. The new record keeps the
/// identifier, does not raise the population, and names no queen whose
/// identifier is still to be handed out.
pub fn store_colony(world: &mut World, at: usize, colony: Colony)
    requires
        old(world)@.wf(),
        at < old(world).colonies.rows.len(),
        colony.id == old(world).colonies.rows[at as int].id,
        colony.population <= old(world).colonies.rows[at as int].population,
        crowned(colony, old(world).ants.next_id),
    ensures
        final(world)@.wf(),
        final(world)@ == (WorldView {
            colonies: old(world)@.colonies.update(colony),
            ..old(world)@
        }),
        final(world)@.colonies.rows == old(world)@.colonies.rows.update(at as int, colony),
{
    world.colonies.replace(at, colony);
}

/// Writes back the creature in position `at`. The new record keeps the
/// identifier and the colony, and is alive.
pub fn store_ant(world: &mut World, at: usize, ant: Ant)
    requires
        old(world)@.wf(),
        at < old(world).ants.rows.len(),
        ant.id == old(world).ants.rows[at as int].id,
        ant.colony_id == old(world).ants.rows[at as int].colony_id,
        healthy(ant),
    ensures
        final(world)@.wf(),
        final(world)@ == (WorldView { ants: old(world)@.ants.update(ant), ..old(world)@ }),
        final(world)@.ants.rows == old(world)@.ants.rows.update(at as int, ant),
{
    let ghost before = world@;
    world.ants.replace(at, ant);
    proof {
        lemma_bounded_same(before.colonies.rows, before.ants.rows, world@.ants.rows);
    }
}

/// Draws the generator's next number.
pub fn draw(world: &mut World) -> (drawn: u32)
    requires
        old(world)@.wf(),
    ensures
        final(world)@.wf(),
        drawn == rng_draw(old(world)@.rng),
        final(world)@ == (WorldView { rng: rng_step(old(world)@.rng), ..old(world)@ }),
{
    let drawn = world.rng.next();
    drawn
}

/// The deposits a fresh world starts with: food to the north-east and
/// south-west, minerals underground to the south-east and north-west.
pub open spec fn initial_node(k: int) -> ResourceNode {
    ResourceNode {
        id: (k + 1) as u32,
        resource_type: if k < 2 {
            ResourceType::Food
        } else {
            ResourceType::Minerals
        },
        position: if k == 0 {
            Position { x: 50_000, y: 50_000, z: 0 }
        } else if k == 1 {
            Position { x: (-50_000) as i32, y: (-50_000) as i32, z: 0 }
        } else if k == 2 {
            Position { x: 100_000, y: (-100_000) as i32, z: (-20_000) as i32 }
        } else {
            Position { x: (-100_000) as i32, y: 100_000, z: (-20_000) as i32 }
        },
        amount: 1_000_000,
        max_amount: 1_000_000,
        regeneration_rate: 1000,
    }
}

/// The world before any player has joined.
pub open spec fn initial_world(seed: u64) -> WorldView {
    WorldView {
        players: Seq::empty(),
        colonies: TableView::empty(),
        ants: TableView::empty(),
        chambers: TableView::empty(),
        tunnels: TableView::empty(),
        resource_nodes: TableView { rows: Seq::new(4, |k: int| initial_node(k)), next_id: 5 },
        pheromones: TableView::empty(),
        battles: TableView::empty(),
        explored: TableView::empty(),
        discovered: TableView::empty(),
        rng: seed,
    }
}

fn place_node(
    nodes: &mut Table<ResourceNode>,
    resource_type: ResourceType,
    x: i32,
    y: i32,
    z: i32,
)
    requires
        old(nodes)@.wf(),
        !old(nodes)@.is_full(),
    ensures
        final(nodes)@.wf(),
        final(nodes)@ == old(nodes)@.insert(
            ResourceNode {
                id: old(nodes).next_id,
                resource_type,
                position: Position { x, y, z },
                amount: 1_000_000,
                max_amount: 1_000_000,
                regeneration_rate: 1000,
            },
        ),
{
    let id = nodes.next_id;
    nodes.insert(
        ResourceNode {
            id,
            resource_type,
            position: Position { x, y, z },
            amount: 1_000_000,
            max_amount: 1_000_000,
            regeneration_rate: 1000,
        },
    );
}

/// Creates the world: four deposits of a thousand units each, no players,
/// and a generator that starts from `seed`.
pub fn init(seed: u64) -> (world: World)
    ensures
        world@.wf(),
        world@ == initial_world(seed),
{
    let mut nodes: Table<ResourceNode> = Table::new();
    place_node(&mut nodes, ResourceType::Food, 50_000, 50_000, 0);
    place_node(&mut nodes, ResourceType::Food, -50_000, -50_000, 0);
    place_node(&mut nodes, ResourceType::Minerals, 100_000, -100_000, -20_000);
    place_node(&mut nodes, ResourceType::Minerals, -100_000, 100_000, -20_000);
    let world = World {
        players: Vec::new(),
        colonies: Table::new(),
        ants: Table::new(),
        chambers: Table::new(),
        tunnels: Table::new(),
        resource_nodes: nodes,
        pheromones: Table::new(),
        battles: Table::new(),
        explored: Table::new(),
        discovered: Table::new(),
        rng: Rng::new(seed),
    };
    world
}

} // verus!
