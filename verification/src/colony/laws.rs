//! What holds of the simulation as a whole, proved from the commands'
//! own definitions.

use vstd::prelude::*;
use crate::colony::combat::{
    attack_outcome, attack_target_check, attack_target_next, battle_record,
};
use crate::colony::economy::{
    affordable, after_cost, ant_charge, ant_price, first_shortage, Cost,
};
use crate::colony::founding::{bumped, founding_queen, throne_room};
use crate::colony::geometry::{dist_sq, lemma_distance_bound, within};
use crate::colony::larva::{feed_larva_check, raised, spawn_ant_check};
use crate::colony::lifecycle::{after_death, buried, hatchling};
use crate::colony::movement::{
    command_ants_check, command_ants_next, commanded, commands, eligible, nearest_node,
    node_rank, payer, total_move_cost,
};
use crate::colony::registry::{ant_stats, maturation_deadline};
use crate::colony::reproduction::{
    daughter_colony, generation_percent, honoured, landing_site, nuptial_flight_check,
    nuptial_flight_next, trait_base_jelly, trait_bonus_larvae,
};
use crate::colony::rng::rng_draw;
use crate::colony::types::{
    Ant, AntTrait, AntType, Colony, Position, ResourceNode, TaskType,
};
use crate::colony::world::{
    crowned, has_player, healthy, homed, lemma_bounded_birth, lemma_bounded_same, lemma_count_bound,
    lemma_count_none, lemma_count_push, lemma_count_remove, lemma_count_same_colonies,
    live_count, player_index, players_distinct, WorldView,
};
use crate::identity::{Context, Identity};

verus! {

/// The economy never goes negative: every entry of every ledger is at
/// least zero.
pub proof fn lemma_ledger_never_negative(s: WorldView, i: int)
    requires
        s.wf(),
        0 <= i < s.colonies.rows.len(),
    ensures
        s.colonies.rows[i].food >= 0,
        s.colonies.rows[i].water >= 0,
        s.colonies.rows[i].minerals >= 0,
        s.colonies.rows[i].queen_jelly >= 0,
        s.colonies.rows[i].larvae >= 0,
{
}

/// A colony that can afford a cost is left with exactly what it held less
/// the cost: paying neither wraps around nor takes more than asked.
pub proof fn lemma_payment_exact(colony: Colony, cost: Cost)
    requires
        affordable(colony, cost),
    ensures
        after_cost(colony, cost).food + cost.food == colony.food,
        after_cost(colony, cost).water + cost.water == colony.water,
        after_cost(colony, cost).minerals + cost.minerals == colony.minerals,
        after_cost(colony, cost).larvae + cost.larvae == colony.larvae,
        after_cost(colony, cost).queen_jelly + cost.jelly == colony.queen_jelly,
        after_cost(colony, cost).population == colony.population,
{
}

/// If nothing falls short, everything is affordable, and the other way round.
pub proof fn lemma_shortage_iff_unaffordable(colony: Colony, cost: Cost)
    ensures
        first_shortage(colony, cost) is None <==> affordable(colony, cost),
{
}

/// Raising a creature keeps the books straight: if every colony's recorded
/// population equalled its number of creatures before, it does so after.
pub proof fn lemma_raising_keeps_population_exact(
    s: WorldView,
    colony_id: u32,
    ant_type: AntType,
    position: Position,
    now: u64,
)
    requires
        s.wf(),
        s.population_exact(),
        s.colonies.contains(colony_id),
        !s.ants.is_full(),
    ensures
        raised(s, colony_id, ant_type, position, now).population_exact(),
{
    let after = raised(s, colony_id, ant_type, position, now);
    let k = s.colonies.index_of(colony_id);
    let born = hatchling(
        s,
        colony_id,
        ant_type,
        position,
        TaskType::Idle,
        None,
        maturation_deadline(ant_type, now),
        now,
    );
    s.ants.lemma_len_bound();
    lemma_count_bound(s.ants.rows, colony_id);
    assert(s.colonies.rows[k].population == live_count(s.ants.rows, s.colonies.rows[k].id));
    assert forall|i: int| 0 <= i < after.colonies.rows.len() implies (
    #[trigger] after.colonies.rows[i]).population == live_count(
        after.ants.rows,
        after.colonies.rows[i].id,
    ) by {
        assert(s.colonies.rows[i].population == live_count(s.ants.rows, s.colonies.rows[i].id));
        lemma_count_push(s.ants.rows, born, s.colonies.rows[i].id);
        if i != k {
            s.colonies.lemma_index_of(i);
        }
    }
}

/// Feeding a larva keeps the books straight.
pub proof fn lemma_feed_larva_keeps_population_exact(
    s: WorldView,
    ctx: Context,
    colony_id: u32,
    ant_type: AntType,
    position: Position,
)
    requires
        s.wf(),
        s.population_exact(),
        feed_larva_check(s, ctx, colony_id, ant_type) is None,
    ensures
        raised(s, colony_id, ant_type, position, ctx.timestamp).population_exact(),
{
    lemma_raising_keeps_population_exact(s, colony_id, ant_type, position, ctx.timestamp);
}

/// Spawning a worker keeps the books straight.
pub proof fn lemma_spawn_ant_keeps_population_exact(
    s: WorldView,
    ctx: Context,
    colony_id: u32,
    ant_type: AntType,
    position: Position,
)
    requires
        s.wf(),
        s.population_exact(),
        spawn_ant_check(s, ctx, colony_id, ant_type) is None,
    ensures
        raised(s, colony_id, AntType::Worker, position, ctx.timestamp).population_exact(),
{
    lemma_raising_keeps_population_exact(s, colony_id, AntType::Worker, position, ctx.timestamp);
}

/// A death keeps the books straight.
pub proof fn lemma_death_keeps_population_exact(s: WorldView, ant_id: u32)
    requires
        s.wf(),
        s.population_exact(),
        s.ants.contains(ant_id),
    ensures
        buried(s, ant_id).population_exact(),
{
    let after = buried(s, ant_id);
    let k = s.ants.index_of(ant_id);
    let colony_id = s.ants.rows[k].colony_id;
    s.ants.lemma_delete(ant_id);
    if s.colonies.contains(colony_id) {
        s.colonies.lemma_update(after_death(s.colonies.get(colony_id)));
    }
    assert forall|i: int| 0 <= i < after.colonies.rows.len() implies (
    #[trigger] after.colonies.rows[i]).population == live_count(
        after.ants.rows,
        after.colonies.rows[i].id,
    ) by {
        let id = s.colonies.rows[i].id;
        assert(s.colonies.rows[i].population == live_count(s.ants.rows, id));
        lemma_count_remove(s.ants.rows, k, id);
        s.colonies.lemma_index_of(i);
    }
}

/// Combat keeps the books straight, whether the target dies or not.
pub proof fn lemma_attack_keeps_population_exact(
    s: WorldView,
    ctx: Context,
    attacker_id: u32,
    target_id: u32,
)
    requires
        s.wf(),
        s.population_exact(),
        attack_target_check(s, ctx, attacker_id, target_id) is None,
    ensures
        attack_target_next(s, ctx, attacker_id, target_id).population_exact(),
{
    let after = attack_target_next(s, ctx, attacker_id, target_id);
    let fought = WorldView {
        battles: s.battles.insert(battle_record(s, ctx, attacker_id, target_id)),
        ..s
    };
    if attack_outcome(s, attacker_id, target_id) == 0 {
        assert(fought.population_exact());
        lemma_death_keeps_population_exact(fought, target_id);
    } else {
        assert forall|i: int| 0 <= i < after.colonies.rows.len() implies (
        #[trigger] after.colonies.rows[i]).population == live_count(
            after.ants.rows,
            after.colonies.rows[i].id,
        ) by {
            assert(s.colonies.rows[i].population == live_count(
                s.ants.rows,
                s.colonies.rows[i].id,
            ));
            lemma_count_same_colonies(s.ants.rows, after.ants.rows, s.colonies.rows[i].id);
        }
    }
}

/// Raising a creature leaves a well-formed world well formed.
pub proof fn lemma_raising_keeps_wf(
    s: WorldView,
    colony_id: u32,
    ant_type: AntType,
    position: Position,
    now: u64,
)
    requires
        s.wf(),
        s.colonies.contains(colony_id),
        !s.ants.is_full(),
    ensures
        raised(s, colony_id, ant_type, position, now).wf(),
{
    let after = raised(s, colony_id, ant_type, position, now);
    let k = s.colonies.index_of(colony_id);
    let colony = s.colonies.rows[k];
    let born = hatchling(
        s,
        colony_id,
        ant_type,
        position,
        TaskType::Idle,
        None,
        maturation_deadline(ant_type, now),
        now,
    );
    s.ants.lemma_len_bound();
    lemma_count_bound(s.ants.rows, colony_id);
    assert(colony.population <= live_count(s.ants.rows, colony.id));
    s.ants.lemma_insert(born);
    s.colonies.lemma_update(after.colonies.rows[k]);
    assert forall|i: int| 0 <= i < after.ants.rows.len() implies healthy(
        #[trigger] after.ants.rows[i],
    ) by {
        if i < s.ants.rows.len() {
            assert(healthy(s.ants.rows[i]));
        }
    }
    lemma_bounded_birth(s.colonies.rows, s.ants.rows, k, after.colonies.rows[k], born);
}

/// A death leaves a well-formed world well formed.
pub proof fn lemma_death_keeps_wf(s: WorldView, ant_id: u32)
    requires
        s.wf(),
        s.ants.contains(ant_id),
    ensures
        buried(s, ant_id).wf(),
{
    let after = buried(s, ant_id);
    let k = s.ants.index_of(ant_id);
    let colony_id = s.ants.rows[k].colony_id;
    s.ants.lemma_delete(ant_id);
    if s.colonies.contains(colony_id) {
        s.colonies.lemma_update(after_death(s.colonies.get(colony_id)));
    }
    assert forall|i: int| 0 <= i < after.ants.rows.len() implies healthy(
        #[trigger] after.ants.rows[i],
    ) by {
        if i < k {
            assert(healthy(s.ants.rows[i]));
        } else {
            assert(healthy(s.ants.rows[i + 1]));
        }
    }
    assert forall|i: int| 0 <= i < after.colonies.rows.len() implies (
    #[trigger] after.colonies.rows[i]).population <= live_count(
        after.ants.rows,
        after.colonies.rows[i].id,
    ) by {
        let id = s.colonies.rows[i].id;
        assert(s.colonies.rows[i].population <= live_count(s.ants.rows, id));
        lemma_count_remove(s.ants.rows, k, id);
        s.colonies.lemma_index_of(i);
    }
}

/// Combat leaves a well-formed world well formed.
pub proof fn lemma_attack_keeps_wf(s: WorldView, ctx: Context, attacker_id: u32, target_id: u32)
    requires
        s.wf(),
        attack_target_check(s, ctx, attacker_id, target_id) is None,
    ensures
        attack_target_next(s, ctx, attacker_id, target_id).wf(),
{
    let after = attack_target_next(s, ctx, attacker_id, target_id);
    let record = battle_record(s, ctx, attacker_id, target_id);
    let fought = WorldView { battles: s.battles.insert(record), ..s };
    s.battles.lemma_insert(record);
    assert(fought.wf());
    if attack_outcome(s, attacker_id, target_id) == 0 {
        lemma_death_keeps_wf(fought, target_id);
    } else {
        let k = s.ants.index_of(target_id);
        let wounded = Ant {
            health: attack_outcome(s, attacker_id, target_id),
            ..s.ants.get(target_id)
        };
        s.ants.lemma_update(wounded);
        assert(healthy(s.ants.rows[k]));
        assert forall|i: int| 0 <= i < after.ants.rows.len() implies healthy(
            #[trigger] after.ants.rows[i],
        ) by {
            if i != k {
                assert(healthy(s.ants.rows[i]));
            }
        }
        lemma_bounded_same(s.colonies.rows, s.ants.rows, after.ants.rows);
    }
}

/// A birth, a death in combat or a nuptial flight, as a player asks for it.
pub enum Operation {
    FeedLarva { ctx: Context, colony_id: u32, ant_type: AntType, position: Position },
    SpawnAnt { ctx: Context, colony_id: u32, ant_type: AntType, position: Position },
    Attack { ctx: Context, attacker_id: u32, target_id: u32 },
    NuptialFlight { ctx: Context, queen_id: u32 },
}

/// The state after one operation; an operation that is turned down leaves
/// the state as it was.
pub open spec fn applied(s: WorldView, op: Operation) -> WorldView {
    match op {
        Operation::FeedLarva { ctx, colony_id, ant_type, position } => if feed_larva_check(
            s,
            ctx,
            colony_id,
            ant_type,
        ) is None {
            raised(s, colony_id, ant_type, position, ctx.timestamp)
        } else {
            s
        },
        Operation::SpawnAnt { ctx, colony_id, ant_type, position } => if spawn_ant_check(
            s,
            ctx,
            colony_id,
            ant_type,
        ) is None {
            raised(s, colony_id, AntType::Worker, position, ctx.timestamp)
        } else {
            s
        },
        Operation::Attack { ctx, attacker_id, target_id } => if attack_target_check(
            s,
            ctx,
            attacker_id,
            target_id,
        ) is None {
            attack_target_next(s, ctx, attacker_id, target_id)
        } else {
            s
        },
        Operation::NuptialFlight { ctx, queen_id } => if nuptial_flight_check(s, ctx, queen_id)
            is None {
            nuptial_flight_next(s, ctx, queen_id)
        } else {
            s
        },
    }
}

/// The state after a sequence of operations, one after the other.
pub open spec fn applied_all(s: WorldView, ops: Seq<Operation>) -> WorldView
    decreases ops.len(),
{
    if ops.len() == 0 {
        s
    } else {
        applied(applied_all(s, ops.drop_last()), ops.last())
    }
}

/// After any sequence of births, combat deaths and nuptial flights, the
/// population every colony records equals its number of creatures, if it
/// did so before the first of them.
pub proof fn lemma_population_exact_after_any_sequence(s: WorldView, ops: Seq<Operation>)
    requires
        s.wf(),
        s.population_exact(),
    ensures
        applied_all(s, ops).wf(),
        applied_all(s, ops).population_exact(),
    decreases ops.len(),
{
    if ops.len() > 0 {
        lemma_population_exact_after_any_sequence(s, ops.drop_last());
        let before = applied_all(s, ops.drop_last());
        match ops.last() {
            Operation::FeedLarva { ctx, colony_id, ant_type, position } => {
                if feed_larva_check(before, ctx, colony_id, ant_type) is None {
                    lemma_raising_keeps_wf(before, colony_id, ant_type, position, ctx.timestamp);
                    lemma_raising_keeps_population_exact(
                        before,
                        colony_id,
                        ant_type,
                        position,
                        ctx.timestamp,
                    );
                }
            },
            Operation::SpawnAnt { ctx, colony_id, ant_type, position } => {
                if spawn_ant_check(before, ctx, colony_id, ant_type) is None {
                    lemma_raising_keeps_wf(
                        before,
                        colony_id,
                        AntType::Worker,
                        position,
                        ctx.timestamp,
                    );
                    lemma_raising_keeps_population_exact(
                        before,
                        colony_id,
                        AntType::Worker,
                        position,
                        ctx.timestamp,
                    );
                }
            },
            Operation::Attack { ctx, attacker_id, target_id } => {
                if attack_target_check(before, ctx, attacker_id, target_id) is None {
                    lemma_attack_keeps_wf(before, ctx, attacker_id, target_id);
                    lemma_attack_keeps_population_exact(before, ctx, attacker_id, target_id);
                }
            },
            Operation::NuptialFlight { ctx, queen_id } => {
                if nuptial_flight_check(before, ctx, queen_id) is None {
                    lemma_nuptial_flight_keeps_population_exact(before, ctx, queen_id);
                }
            },
        }
    }
}

/// A group move is turned down exactly when somebody on the list is the
/// caller's to command and the paying colony holds less jelly than the
/// summed cost; it then changes nothing.
pub proof fn lemma_group_move_turned_down(
    s: WorldView,
    ctx: Context,
    ids: Seq<u32>,
    target: Position,
)
    ensures
        command_ants_check(s, ctx, ids, target) is Some <==> payer(
            s,
            ctx.sender,
            ids,
            ids.len(),
        ) is Some && s.colonies.get(payer(s, ctx.sender, ids, ids.len())->0).queen_jelly
            < total_move_cost(s, ctx.sender, ids, target, ids.len()),
        payer(s, ctx.sender, ids, ids.len()) is None ==> command_ants_next(s, ctx, ids, target)
            == s,
        payer(s, ctx.sender, ids, ids.len()) is Some <==> exists|k: int|
            0 <= k < ids.len() && commands(s, ctx.sender, #[trigger] ids[k]),
{
    lemma_payer_exists(s, ctx, ids, ids.len());
}

/// Somebody pays exactly if somebody on the list is the caller's to command.
pub proof fn lemma_payer_exists(s: WorldView, ctx: Context, ids: Seq<u32>, n: nat)
    requires
        n <= ids.len(),
    ensures
        payer(s, ctx.sender, ids, n) is Some <==> exists|k: int|
            0 <= k < n && commands(s, ctx.sender, #[trigger] ids[k]),
    decreases n,
{
    if n > 0 {
        lemma_payer_exists(s, ctx, ids, (n - 1) as nat);
        if payer(s, ctx.sender, ids, n) is Some {
            if payer(s, ctx.sender, ids, (n - 1) as nat) is Some {
                let k = choose|k: int|
                    0 <= k < n - 1 && commands(s, ctx.sender, #[trigger] ids[k]);
                assert(0 <= k < n && commands(s, ctx.sender, ids[k]));
            } else {
                assert(commands(s, ctx.sender, ids[n - 1]));
            }
        } else {
            assert forall|k: int| 0 <= k < n implies !commands(
                s,
                ctx.sender,
                #[trigger] ids[k],
            ) by {
                if k < n - 1 {
                    assert(payer(s, ctx.sender, ids, (n - 1) as nat) is None);
                }
            }
        }
    }
}

/// A group move that goes ahead moves every listed creature the caller
/// commands, charges the paying colony the summed cost exactly once, and
/// leaves every other creature where it was headed.
pub proof fn lemma_group_move_moves_all(
    s: WorldView,
    ctx: Context,
    ids: Seq<u32>,
    target: Position,
)
    requires
        s.wf(),
        command_ants_check(s, ctx, ids, target) is None,
        payer(s, ctx.sender, ids, ids.len()) is Some,
    ensures
        ({
            let after = command_ants_next(s, ctx, ids, target);
            let paying = payer(s, ctx.sender, ids, ids.len())->0;
            &&& s.colonies.contains(paying)
            &&& after.colonies.get(paying).queen_jelly + total_move_cost(
                s,
                ctx.sender,
                ids,
                target,
                ids.len(),
            ) == s.colonies.get(paying).queen_jelly
            &&& forall|k: int|
                0 <= k < ids.len() && commands(s, ctx.sender, #[trigger] ids[k])
                    ==> after.ants.contains(ids[k]) && after.ants.get(ids[k]).target == Some(
                    target,
                ) && after.ants.get(ids[k]).task == TaskType::Exploring && after.ants.get(
                    ids[k],
                ).position == s.ants.get(ids[k]).position
            &&& forall|i: int|
                0 <= i < s.ants.rows.len() && !commands(
                    s,
                    ctx.sender,
                    (#[trigger] s.ants.rows[i]).id,
                )
                    ==> after.ants.rows[i] == s.ants.rows[i]
            &&& forall|i: int|
                0 <= i < s.ants.rows.len() && !ids.contains((#[trigger] s.ants.rows[i]).id)
                    ==> after.ants.rows[i] == s.ants.rows[i]
        }),
{
    let after = command_ants_next(s, ctx, ids, target);
    let paying = payer(s, ctx.sender, ids, ids.len())->0;
    lemma_payer_owned(s, ctx, ids, ids.len());
    let colony = s.colonies.get(paying);
    s.colonies.lemma_update(
        Colony {
            queen_jelly: (colony.queen_jelly - total_move_cost(
                s,
                ctx.sender,
                ids,
                target,
                ids.len(),
            )) as u64,
            ..colony
        },
    );
    lemma_total_move_cost_bounds(s, ctx, ids, target, ids.len());
    assert forall|k: int|
        0 <= k < ids.len() && commands(s, ctx.sender, #[trigger] ids[k])
        implies after.ants.contains(
        ids[k],
    ) && after.ants.get(ids[k]).target == Some(target) && after.ants.get(ids[k]).task
        == TaskType::Exploring && after.ants.get(ids[k]).position == s.ants.get(
        ids[k],
    ).position by {
        let i = s.ants.index_of(ids[k]);
        assert(after.ants.rows[i] == commanded(s, ctx.sender, ids, target, s.ants.rows[i]));
        assert(after.ants.wf()) by {
            assert forall|a: int| 0 <= a < after.ants.rows.len() implies (
            #[trigger] after.ants.rows[a]).id == s.ants.rows[a].id by {}
        }
        after.ants.lemma_index_of(i);
    }
    assert forall|i: int|
        0 <= i < s.ants.rows.len() && !commands(
            s,
            ctx.sender,
            (#[trigger] s.ants.rows[i]).id,
        ) implies after.ants.rows[i] == s.ants.rows[i] by {
        s.ants.lemma_index_of(i);
    }
}

/// The paying colony exists and belongs to the caller.
pub proof fn lemma_payer_owned(s: WorldView, ctx: Context, ids: Seq<u32>, n: nat)
    requires
        payer(s, ctx.sender, ids, n) is Some,
    ensures
        s.owns_colony(ctx.sender, payer(s, ctx.sender, ids, n)->0),
    decreases n,
{
    if n > 0 && payer(s, ctx.sender, ids, (n - 1) as nat) is Some {
        lemma_payer_owned(s, ctx, ids, (n - 1) as nat);
    }
}

/// The cost of a group move is never negative.
pub proof fn lemma_total_move_cost_bounds(
    s: WorldView,
    ctx: Context,
    ids: Seq<u32>,
    target: Position,
    n: nat,
)
    ensures
        0 <= total_move_cost(s, ctx.sender, ids, target, n),
    decreases n,
{
    if n > 0 {
        lemma_total_move_cost_bounds(s, ctx, ids, target, (n - 1) as nat);
        lemma_distance_bound(s.ants.get(ids[n - 1]).position, target);
    }
}

/// The nearest deposit is eligible, no eligible deposit is nearer, and none
/// before it is as near. If there is none, no deposit is eligible.
pub proof fn lemma_nearest_node(nodes: Seq<ResourceNode>, from: Position, food_only: bool, n: nat)
    requires
        n <= nodes.len(),
    ensures
        match nearest_node(nodes, from, food_only, n) {
            Some(b) => 0 <= b < n && eligible(nodes[b], food_only) && (forall|j: int|
                0 <= j < n && eligible(#[trigger] nodes[j], food_only) ==> node_rank(
                    nodes[b],
                    from,
                ) <= node_rank(nodes[j], from)) && (forall|j: int|
                0 <= j < b && eligible(#[trigger] nodes[j], food_only) ==> node_rank(
                    nodes[b],
                    from,
                ) < node_rank(nodes[j], from)),
            None => forall|j: int| 0 <= j < n ==> !eligible(#[trigger] nodes[j], food_only),
        },
    decreases n,
{
    if n > 0 {
        lemma_nearest_node(nodes, from, food_only, (n - 1) as nat);
    }
}

/// An attack on a target more than five world units away is turned down,
/// so it changes no health and records no battle.
pub proof fn lemma_attack_out_of_range(s: WorldView, ctx: Context, attacker_id: u32, target_id: u32)
    requires
        s.ants.contains(attacker_id),
        s.ants.contains(target_id),
        dist_sq(s.ants.get(attacker_id).position, s.ants.get(target_id).position) > 5000 * 5000,
    ensures
        attack_target_check(s, ctx, attacker_id, target_id) is Some,
{
}

/// An attack that leaves its target without health deletes the target and
/// records the battle, and a colony that had the target on its books counts
/// exactly one creature less.
pub proof fn lemma_attack_kills(s: WorldView, ctx: Context, attacker_id: u32, target_id: u32)
    requires
        s.wf(),
        attack_target_check(s, ctx, attacker_id, target_id) is None,
        attack_outcome(s, attacker_id, target_id) == 0,
    ensures
        ({
            let after = attack_target_next(s, ctx, attacker_id, target_id);
            let colony_id = s.ants.get(target_id).colony_id;
            &&& !after.ants.contains(target_id)
            &&& after.ants.rows.len() + 1 == s.ants.rows.len()
            &&& after.battles.rows == s.battles.rows.push(
                battle_record(s, ctx, attacker_id, target_id),
            )
            &&& s.colonies.contains(colony_id) && s.colonies.get(colony_id).population >= 1
                ==> after.colonies.contains(colony_id) && after.colonies.get(colony_id).population
                + 1 == s.colonies.get(colony_id).population
        }),
{
    let colony_id = s.ants.get(target_id).colony_id;
    s.ants.lemma_delete(target_id);
    if s.colonies.contains(colony_id) {
        s.colonies.lemma_update(after_death(s.colonies.get(colony_id)));
    }
}

/// An attack that leaves its target alive stores the target with exactly
/// the health it has left, and changes no population.
pub proof fn lemma_attack_wounds(s: WorldView, ctx: Context, attacker_id: u32, target_id: u32)
    requires
        s.wf(),
        attack_target_check(s, ctx, attacker_id, target_id) is None,
        attack_outcome(s, attacker_id, target_id) > 0,
    ensures
        ({
            let after = attack_target_next(s, ctx, attacker_id, target_id);
            &&& after.ants.contains(target_id)
            &&& after.ants.get(target_id).health + s.ants.get(attacker_id).attack_damage
                == s.ants.get(target_id).health
            &&& after.colonies == s.colonies
        }),
{
    s.ants.lemma_update(
        Ant { health: attack_outcome(s, attacker_id, target_id), ..s.ants.get(target_id) },
    );
}

/// A daughter colony's ledger: a hundred times its jelly is the base jelly
/// of the inherited trait times a hundred plus five per generation, and it
/// holds one larva plus the larvae of the trait.
pub proof fn lemma_daughter_ledger(
    id: u32,
    queen_id: u32,
    owner: Identity,
    inherited: Option<AntTrait>,
    generations: u32,
    now: u64,
)
    ensures
        ({
            let daughter = daughter_colony(id, queen_id, owner, inherited, generations, now);
            &&& daughter.queen_jelly * 100 == trait_base_jelly(inherited) * (100 + 5
                * generations)
            &&& daughter.larvae == 1 + trait_bonus_larvae(inherited)
            &&& daughter.food * 100 == 20_000 * (100 + 5 * generations)
            &&& daughter.water * 100 == 10_000 * (100 + 5 * generations)
        }),
{
    let percent = generation_percent(generations);
    assert(100 <= percent <= 100 + 5 * 0xffff_ffff);
    let base = trait_base_jelly(inherited);
    assert(base == 24_000 || base == 30_000 || base == 20_000);
    assert(base / 100 * percent * 100 == base * percent) by (nonlinear_arith)
        requires
            base == 24_000 || base == 30_000 || base == 20_000,
    ;
    assert(0 <= base / 100 * percent <= 300 * (100 + 5 * 0xffff_ffff)) by (nonlinear_arith)
        requires
            base == 24_000 || base == 30_000 || base == 20_000,
            100 <= percent <= 100 + 5 * 0xffff_ffff,
    ;
}

/// The colony a young queen founds starts with the jelly of her trait
/// scaled by the generations her line has survived, this flight included,
/// and with one larva plus the larvae of the trait.
pub proof fn lemma_daughter_colony_start(s: WorldView, ctx: Context, queen_id: u32)
    requires
        s.wf(),
        nuptial_flight_check(s, ctx, queen_id) is None,
    ensures
        ({
            let after = nuptial_flight_next(s, ctx, queen_id);
            let inherited = s.ants.get(queen_id).trait_type;
            let generations = bumped(
                s.players[player_index(s.players, ctx.sender)].generations_survived,
            );
            let daughter = after.colonies.get(s.colonies.next_id);
            &&& after.colonies.contains(s.colonies.next_id)
            &&& daughter == daughter_colony(
                s.colonies.next_id,
                s.ants.next_id,
                ctx.sender,
                inherited,
                generations,
                ctx.timestamp,
            )
            &&& daughter.queen_jelly * 100 == trait_base_jelly(inherited) * (100 + 5
                * generations)
            &&& daughter.larvae == 1 + trait_bonus_larvae(inherited)
            &&& daughter.queen_trait == inherited
        }),
{
    let queen = s.ants.get(queen_id);
    let parent = s.colonies.get(queen.colony_id);
    let i = player_index(s.players, ctx.sender);
    let player = honoured(s.players[i], parent);
    let inherited = queen.trait_type;
    let left = buried(WorldView { players: s.players.update(i, player), ..s }, queen_id);
    let daughter = daughter_colony(
        s.colonies.next_id,
        s.ants.next_id,
        ctx.sender,
        inherited,
        player.generations_survived,
        ctx.timestamp,
    );
    lemma_daughter_ledger(
        s.colonies.next_id,
        s.ants.next_id,
        ctx.sender,
        inherited,
        player.generations_survived,
        ctx.timestamp,
    );
    s.colonies.lemma_update(after_death(parent));
    assert(left.colonies.wf());
    assert(left.colonies.next_id == s.colonies.next_id);
    assert(left.ants.next_id == s.ants.next_id);
    left.colonies.lemma_insert(daughter);
}

/// Feeding a larva goes ahead whenever the caller owns the colony, the
/// colony holds a larva and can pay the listed price of a creature that is
/// no queen, and a creature identifier is left. The colony then pays what
/// the creature costs it, records one creature more and has one creature
/// more: the newborn, of the type asked for, idle at the place asked for
/// and at full health. No other colony changes.
pub proof fn lemma_feed_larva_raises_one(
    s: WorldView,
    ctx: Context,
    colony_id: u32,
    ant_type: AntType,
    position: Position,
)
    requires
        s.wf(),
        s.owns_colony(ctx.sender, colony_id),
        s.colonies.get(colony_id).larvae >= 1,
        ant_type != AntType::Queen,
        affordable(s.colonies.get(colony_id), ant_price(ant_type)->0),
        !s.ants.is_full(),
    ensures
        feed_larva_check(s, ctx, colony_id, ant_type) is None,
        ({
            let after = raised(s, colony_id, ant_type, position, ctx.timestamp);
            let colony = s.colonies.get(colony_id);
            let born = after.ants.get(s.ants.next_id);
            &&& after.colonies.contains(colony_id)
            &&& after.colonies.get(colony_id) == (Colony {
                population: (colony.population + 1) as u32,
                ..after_cost(colony, ant_charge(colony, ant_type))
            })
            &&& after.colonies.get(colony_id).population == colony.population + 1
            &&& live_count(after.ants.rows, colony_id) == live_count(s.ants.rows, colony_id) + 1
            &&& after.ants.contains(s.ants.next_id)
            &&& after.ants.rows == s.ants.rows.push(born)
            &&& born.colony_id == colony_id
            &&& born.ant_type == ant_type
            &&& born.position == position
            &&& born.task == TaskType::Idle
            &&& born.health == born.max_health
            &&& born.health == ant_stats(ant_type).0
            &&& born.health > 0
            &&& forall|other: u32|
                other != colony_id && s.colonies.contains(other) ==> #[trigger] after.colonies.get(
                    other,
                ) == s.colonies.get(other)
        }),
{
    let after = raised(s, colony_id, ant_type, position, ctx.timestamp);
    let colony = s.colonies.get(colony_id);
    let born = hatchling(
        s,
        colony_id,
        ant_type,
        position,
        TaskType::Idle,
        None,
        maturation_deadline(ant_type, ctx.timestamp),
        ctx.timestamp,
    );
    s.ants.lemma_len_bound();
    lemma_count_bound(s.ants.rows, colony_id);
    let k = s.colonies.index_of(colony_id);
    assert(s.colonies.rows[k].population <= live_count(s.ants.rows, s.colonies.rows[k].id));
    s.ants.lemma_insert(born);
    s.colonies.lemma_update(after.colonies.rows[k]);
    lemma_count_push(s.ants.rows, born, colony_id);
}

/// Spawning goes ahead exactly for a worker of a colony the caller owns
/// that holds 10 food, a larva and 2 jelly, as long as a creature
/// identifier is left.
pub proof fn lemma_spawn_ant_goes_ahead(
    s: WorldView,
    ctx: Context,
    colony_id: u32,
    ant_type: AntType,
)
    ensures
        spawn_ant_check(s, ctx, colony_id, ant_type) is None <==> {
            &&& s.owns_colony(ctx.sender, colony_id)
            &&& ant_type == AntType::Worker
            &&& s.colonies.get(colony_id).food >= 10_000
            &&& s.colonies.get(colony_id).larvae >= 1
            &&& s.colonies.get(colony_id).queen_jelly >= 2000
            &&& !s.ants.is_full()
        },
{
}

/// A worker that is spawned costs its colony 10 food, a larva and 2 jelly,
/// or 1 jelly if the colony recorded its queen alone. The colony records
/// one creature more and has one more: the worker, idle at the place asked
/// for.
pub proof fn lemma_spawn_ant_raises_a_worker(
    s: WorldView,
    ctx: Context,
    colony_id: u32,
    position: Position,
)
    requires
        s.wf(),
        spawn_ant_check(s, ctx, colony_id, AntType::Worker) is None,
    ensures
        ({
            let after = raised(s, colony_id, AntType::Worker, position, ctx.timestamp);
            let colony = s.colonies.get(colony_id);
            let paid = after.colonies.get(colony_id);
            let born = after.ants.get(s.ants.next_id);
            &&& after.colonies.contains(colony_id)
            &&& paid.food + 10_000 == colony.food
            &&& paid.larvae + 1 == colony.larvae
            &&& paid.queen_jelly + (if colony.population == 1 {
                1000int
            } else {
                2000int
            }) == colony.queen_jelly
            &&& paid.water == colony.water
            &&& paid.minerals == colony.minerals
            &&& paid.population == colony.population + 1
            &&& live_count(after.ants.rows, colony_id) == live_count(s.ants.rows, colony_id) + 1
            &&& after.ants.rows == s.ants.rows.push(born)
            &&& born.colony_id == colony_id
            &&& born.ant_type == AntType::Worker
            &&& born.position == position
            &&& born.task == TaskType::Idle
        }),
{
    lemma_spawn_ant_goes_ahead(s, ctx, colony_id, AntType::Worker);
    lemma_feed_larva_raises_one(s, ctx, colony_id, AntType::Worker, position);
}

/// An attack goes ahead exactly when both creatures are on record, the
/// caller owns the attacker's colony, the target stands within five world
/// units of the attacker, and a battle identifier is left.
pub proof fn lemma_attack_goes_ahead(s: WorldView, ctx: Context, attacker_id: u32, target_id: u32)
    ensures
        attack_target_check(s, ctx, attacker_id, target_id) is None <==> {
            &&& s.ants.contains(attacker_id)
            &&& s.ants.contains(target_id)
            &&& s.owns_colony(ctx.sender, s.ants.get(attacker_id).colony_id)
            &&& within(s.ants.get(attacker_id).position, s.ants.get(target_id).position, 5000)
            &&& !s.battles.is_full()
        },
{
}

/// A blow at least as strong as the target's health deletes the target: no
/// creature is ever stored without health. The target's colony, if it is on
/// record with a population of at least one, records exactly one creature
/// less and is otherwise unchanged, and no other colony changes.
pub proof fn lemma_attack_kill_is_exact(
    s: WorldView,
    ctx: Context,
    attacker_id: u32,
    target_id: u32,
)
    requires
        s.wf(),
        attack_target_check(s, ctx, attacker_id, target_id) is None,
        s.ants.get(attacker_id).attack_damage >= s.ants.get(target_id).health,
    ensures
        ({
            let after = attack_target_next(s, ctx, attacker_id, target_id);
            let colony_id = s.ants.get(target_id).colony_id;
            &&& !after.ants.contains(target_id)
            &&& forall|i: int|
                0 <= i < after.ants.rows.len() ==> (#[trigger] after.ants.rows[i]).health > 0
            &&& s.colonies.contains(colony_id) && s.colonies.get(colony_id).population >= 1
                ==> after.colonies.contains(colony_id) && after.colonies.get(colony_id)
                == (Colony {
                population: (s.colonies.get(colony_id).population - 1) as u32,
                ..s.colonies.get(colony_id)
            })
            &&& forall|other: u32|
                other != colony_id && s.colonies.contains(other) ==> after.colonies.contains(other)
                    && #[trigger] after.colonies.get(other) == s.colonies.get(other)
            &&& after.colonies.rows.len() == s.colonies.rows.len()
        }),
{
    let after = attack_target_next(s, ctx, attacker_id, target_id);
    let colony_id = s.ants.get(target_id).colony_id;
    lemma_attack_kills(s, ctx, attacker_id, target_id);
    lemma_attack_keeps_wf(s, ctx, attacker_id, target_id);
    assert forall|i: int| 0 <= i < after.ants.rows.len() implies (
    #[trigger] after.ants.rows[i]).health > 0 by {
        assert(healthy(after.ants.rows[i]));
    }
    if s.colonies.contains(colony_id) {
        s.colonies.lemma_update(after_death(s.colonies.get(colony_id)));
    }
}

/// A nuptial flight goes ahead exactly when the caller owns the colony of
/// the creature, the creature is a young queen, the caller is on record as
/// a player, and a colony, a creature and a chamber identifier are left.
pub proof fn lemma_nuptial_flight_goes_ahead(s: WorldView, ctx: Context, queen_id: u32)
    ensures
        nuptial_flight_check(s, ctx, queen_id) is None <==> {
            &&& s.ants.contains(queen_id)
            &&& s.owns_colony(ctx.sender, s.ants.get(queen_id).colony_id)
            &&& s.ants.get(queen_id).ant_type == AntType::YoungQueen
            &&& has_player(s.players, ctx.sender)
            &&& !s.colonies.is_full()
            &&& !s.ants.is_full()
            &&& !s.chambers.is_full()
        },
{
}

/// A nuptial flight keeps the books straight. The young queen is gone and
/// her colony records one creature less. The daughter colony records one
/// creature and has exactly one: its queen, whom it names, and who carries
/// the trait the young queen had.
pub proof fn lemma_nuptial_flight_keeps_population_exact(
    s: WorldView,
    ctx: Context,
    queen_id: u32,
)
    requires
        s.wf(),
        s.population_exact(),
        nuptial_flight_check(s, ctx, queen_id) is None,
    ensures
        ({
            let after = nuptial_flight_next(s, ctx, queen_id);
            let parent = s.ants.get(queen_id).colony_id;
            let daughter = after.colonies.get(s.colonies.next_id);
            let queen = after.ants.get(s.ants.next_id);
            &&& after.wf()
            &&& after.population_exact()
            &&& !after.ants.contains(queen_id)
            &&& after.colonies.contains(parent)
            &&& after.colonies.get(parent).population + 1 == s.colonies.get(parent).population
            &&& after.colonies.contains(s.colonies.next_id)
            &&& daughter.population == 1
            &&& live_count(after.ants.rows, s.colonies.next_id) == 1
            &&& daughter.queen_id == Some(s.ants.next_id)
            &&& after.ants.contains(s.ants.next_id)
            &&& queen.colony_id == s.colonies.next_id
            &&& queen.ant_type == AntType::Queen
            &&& queen.trait_type == s.ants.get(queen_id).trait_type
            &&& daughter.queen_trait == s.ants.get(queen_id).trait_type
        }),
{
    let young = s.ants.get(queen_id);
    let parent = s.colonies.get(young.colony_id);
    let i = player_index(s.players, ctx.sender);
    let player = honoured(s.players[i], parent);
    let honoured_world = WorldView { players: s.players.update(i, player), ..s };
    assert(players_distinct(honoured_world.players)) by {
        assert forall|a: int, b: int| 0 <= a < b < honoured_world.players.len() implies (
        #[trigger] honoured_world.players[a]).id != (#[trigger] honoured_world.players[b]).id by {
            assert(s.players[a].id != s.players[b].id);
        }
    }
    assert(honoured_world.wf());
    assert(honoured_world.population_exact());
    let left = buried(honoured_world, queen_id);
    lemma_death_keeps_wf(honoured_world, queen_id);
    lemma_death_keeps_population_exact(honoured_world, queen_id);
    s.ants.lemma_delete(queen_id);
    s.colonies.lemma_update(after_death(parent));
    let k = s.colonies.index_of(young.colony_id);
    let q = s.ants.index_of(queen_id);
    lemma_count_remove(s.ants.rows, q, young.colony_id);
    assert(s.colonies.rows[k].population == live_count(s.ants.rows, s.colonies.rows[k].id));
    let daughter = daughter_colony(
        s.colonies.next_id,
        s.ants.next_id,
        ctx.sender,
        young.trait_type,
        player.generations_survived,
        ctx.timestamp,
    );
    let queen = founding_queen(
        s.ants.next_id,
        daughter.id,
        landing_site(rng_draw(s.rng)),
        young.trait_type,
        ctx.timestamp,
    );
    let after = nuptial_flight_next(s, ctx, queen_id);
    left.colonies.lemma_insert(daughter);
    left.ants.lemma_insert(queen);
    assert forall|j: int| 0 <= j < left.ants.rows.len() implies (
    #[trigger] left.ants.rows[j]).colony_id != daughter.id by {
        assert(homed(left.ants.rows[j], left.colonies.next_id));
    }
    lemma_count_none(left.ants.rows, daughter.id);
    lemma_count_push(left.ants.rows, queen, daughter.id);
    left.chambers.lemma_insert(throne_room(left.chambers.next_id, daughter.id, queen.position));
    assert forall|j: int| 0 <= j < after.ants.rows.len() implies healthy(
        #[trigger] after.ants.rows[j],
    ) && homed(after.ants.rows[j], after.colonies.next_id) by {
        if j < left.ants.rows.len() {
            assert(healthy(left.ants.rows[j]));
            assert(homed(left.ants.rows[j], left.colonies.next_id));
        }
    }
    assert forall|j: int| 0 <= j < after.colonies.rows.len() implies crowned(
        #[trigger] after.colonies.rows[j],
        after.ants.next_id,
    ) by {
        if j < left.colonies.rows.len() {
            assert(crowned(left.colonies.rows[j], left.ants.next_id));
        }
    }
    assert forall|j: int| 0 <= j < after.colonies.rows.len() implies (
    #[trigger] after.colonies.rows[j]).population == live_count(
        after.ants.rows,
        after.colonies.rows[j].id,
    ) by {
        if j < left.colonies.rows.len() {
            assert(left.colonies.rows[j].population == live_count(
                left.ants.rows,
                left.colonies.rows[j].id,
            ));
            lemma_count_push(left.ants.rows, queen, left.colonies.rows[j].id);
        }
    }
}

} // verus!
