//! What a whole tick of the scheduler does to the ledger of one colony.
//!
//! A tick has two passes, and each pass visits many records. The lemmas
//! here follow one colony through both: flights never touch a ledger, the
//! step of another colony never touches this one, and the colony's own step
//! leaves exactly the decayed and converted ledger.

use vstd::prelude::*;
use crate::colony::ai::{
    ant_ids, colony_ai_tick_next, colony_ids, converted, decayed, flights, flown, foraging,
    has_queen, managed, managed_all, queen_of, scout_spawned, wants_scout, wants_worker,
    worker_spawned, LOW_JELLY,
};
use crate::colony::founding::founding_queen;
use crate::colony::lifecycle::after_death;
use crate::colony::reproduction::{
    daughter_colony, honoured, landing_site, nuptial_flight_next,
};
use crate::colony::rng::{rng_draw, rng_step};
use crate::colony::types::{Ant, AntType, Colony};
use crate::colony::world::{player_index, WorldView};
use crate::identity::Context;
use crate::table::{Row, TableView};

verus! {

/// Two records of one colony that differ at most in the recorded population.
pub open spec fn same_ledger(before: Colony, after: Colony) -> bool {
    after == (Colony { population: after.population, ..before })
}

/// Colony `colony_id` and creature `queen_id` are on record in well-formed
/// tables.
pub open spec fn on_record(s: WorldView, colony_id: u32, queen_id: u32) -> bool {
    &&& s.colonies.wf()
    &&& s.ants.wf()
    &&& s.colonies.contains(colony_id)
    &&& s.ants.contains(queen_id)
}

/// Changing creatures in place, each keeping its identifier, keeps the
/// table well formed and everybody on record.
pub proof fn lemma_herd_keeps_table(ants: TableView<Ant>, herd: Seq<Ant>)
    requires
        ants.wf(),
        herd.len() == ants.rows.len(),
        forall|i: int| 0 <= i < herd.len() ==> (#[trigger] herd[i]).id == ants.rows[i].id,
    ensures
        (TableView { rows: herd, ..ants }).wf(),
        forall|id: u32| (TableView { rows: herd, ..ants }).contains(id) == ants.contains(id),
{
    let after = TableView { rows: herd, ..ants };
    assert forall|i: int, j: int| 0 <= i < j < herd.len() implies (#[trigger] herd[i]).id < (
    #[trigger] herd[j]).id by {
        assert(ants.rows[i].id < ants.rows[j].id);
    }
    assert forall|i: int| 0 <= i < herd.len() implies 1 <= (#[trigger] herd[i]).id
        < ants.next_id by {
        assert(1 <= ants.rows[i].id < ants.next_id);
    }
    assert forall|id: u32| after.contains(id) == ants.contains(id) by {
        if after.contains(id) {
            let i = after.index_of(id);
            assert(after.rows[i].key() == id);
            assert(ants.rows[i].key() == id);
        }
        if ants.contains(id) {
            let i = ants.index_of(id);
            assert(ants.rows[i].key() == id);
            assert(after.rows[i].key() == id);
        }
    }
}

/// A creature's chance to fly leaves every ledger as it was, and every
/// creature that is no young queen on record as it was.
pub proof fn lemma_flight_keeps_ledgers(
    s: WorldView,
    ant_id: u32,
    now: u64,
    colony_id: u32,
    queen_id: u32,
)
    requires
        on_record(s, colony_id, queen_id),
        s.ants.get(queen_id).ant_type != AntType::YoungQueen,
    ensures
        on_record(flown(s, ant_id, now), colony_id, queen_id),
        same_ledger(s.colonies.get(colony_id), flown(s, ant_id, now).colonies.get(colony_id)),
        flown(s, ant_id, now).ants.get(queen_id) == s.ants.get(queen_id),
{
    let after = flown(s, ant_id, now);
    if after != s {
        let young = s.ants.get(ant_id);
        let parent = s.colonies.get(young.colony_id);
        let ctx = Context { sender: parent.player_id, timestamp: now };
        assert(after == nuptial_flight_next(s, ctx, ant_id));
        let i = player_index(s.players, ctx.sender);
        let player = honoured(s.players[i], parent);
        s.ants.lemma_delete(ant_id);
        s.colonies.lemma_update(after_death(parent));
        let left_colonies = s.colonies.update(after_death(parent));
        let left_ants = s.ants.delete(ant_id);
        let daughter = daughter_colony(
            s.colonies.next_id,
            s.ants.next_id,
            ctx.sender,
            young.trait_type,
            player.generations_survived,
            now,
        );
        let queen = founding_queen(
            s.ants.next_id,
            daughter.id,
            landing_site(rng_draw(s.rng)),
            young.trait_type,
            now,
        );
        left_colonies.lemma_insert(daughter);
        left_ants.lemma_insert(queen);
        assert(after.colonies == left_colonies.insert(daughter));
        assert(after.ants == left_ants.insert(queen));
        assert(left_colonies.contains(colony_id));
        assert(left_ants.contains(queen_id));
        assert(after.colonies.index_of(colony_id) == left_colonies.index_of(colony_id));
        assert(after.ants.index_of(queen_id) == left_ants.index_of(queen_id));
        assert(after.colonies.get(colony_id) == left_colonies.get(colony_id));
        assert(after.ants.get(queen_id) == left_ants.get(queen_id));
    }
}

/// The whole pass of flights leaves every ledger as it was.
pub proof fn lemma_flights_keep_ledgers(
    s: WorldView,
    ids: Seq<u32>,
    now: u64,
    n: nat,
    colony_id: u32,
    queen_id: u32,
)
    requires
        on_record(s, colony_id, queen_id),
        s.ants.get(queen_id).ant_type != AntType::YoungQueen,
        n <= ids.len(),
    ensures
        on_record(flights(s, ids, now, n), colony_id, queen_id),
        same_ledger(s.colonies.get(colony_id), flights(s, ids, now, n).colonies.get(colony_id)),
        flights(s, ids, now, n).ants.get(queen_id) == s.ants.get(queen_id),
    decreases n,
{
    if n > 0 {
        lemma_flights_keep_ledgers(s, ids, now, (n - 1) as nat, colony_id, queen_id);
        lemma_flight_keeps_ledgers(
            flights(s, ids, now, (n - 1) as nat),
            ids[n - 1],
            now,
            colony_id,
            queen_id,
        );
    }
}

/// The ledger a managed colony is left with by its own step: the jelly
/// decays, and food is turned into jelly if jelly is short.
pub open spec fn stepped(colony: Colony) -> Colony {
    converted(Colony { queen_jelly: decayed(colony.queen_jelly), ..colony })
}

/// One colony's step changes no record of another colony, and leaves the
/// colony itself, if it is managed and its queen is on record, with exactly
/// the stepped ledger. Nobody leaves the records.
pub proof fn lemma_step_touches_one_colony(
    s: WorldView,
    stepping: u32,
    now: u64,
    colony_id: u32,
    queen_id: u32,
)
    requires
        on_record(s, colony_id, queen_id),
    ensures
        on_record(managed(s, stepping, now), colony_id, queen_id),
        managed(s, stepping, now).colonies.rows.len() == s.colonies.rows.len(),
        stepping != colony_id ==> managed(s, stepping, now).colonies.get(colony_id)
            == s.colonies.get(colony_id),
        stepping == colony_id && s.colonies.get(colony_id).ai_enabled && has_queen(
            s,
            s.colonies.get(colony_id),
        ) ==> managed(s, stepping, now).colonies.get(colony_id) == stepped(
            s.colonies.get(colony_id),
        ),
        stepping == colony_id && !(s.colonies.get(colony_id).ai_enabled && has_queen(
            s,
            s.colonies.get(colony_id),
        )) ==> managed(s, stepping, now) == s,
{
    if s.colonies.contains(stepping) {
        let colony = s.colonies.get(stepping);
        if colony.ai_enabled && has_queen(s, colony) {
            let jelly = decayed(colony.queen_jelly);
            let fed = if jelly < LOW_JELLY {
                foraging(s, stepping, queen_of(s, colony).position)
            } else {
                s
            };
            assert(fed.colonies == s.colonies && fed.ants.wf() && fed.ants.contains(queen_id)
                && fed.ants.next_id == s.ants.next_id) by {
                if fed != s {
                    lemma_herd_keeps_table(s.ants, fed.ants.rows);
                }
            }
            let scouted = if wants_scout(fed, colony, jelly) {
                scout_spawned(fed, colony, now)
            } else {
                fed
            };
            assert(scouted.colonies == s.colonies && scouted.ants.wf() && scouted.ants.contains(
                queen_id,
            )) by {
                if scouted != fed {
                    let drawn = WorldView { rng: rng_step(fed.rng), ..fed };
                    let born = scouted.ants.rows.last();
                    assert(scouted.ants == drawn.ants.insert(born));
                    assert(born.id == fed.ants.next_id);
                    fed.ants.lemma_insert(born);
                }
            }
            let staffed = if wants_worker(scouted, colony, jelly) {
                worker_spawned(scouted, colony, now)
            } else {
                scouted
            };
            assert(staffed.colonies == s.colonies && staffed.ants.wf() && staffed.ants.contains(
                queen_id,
            )) by {
                if staffed != scouted {
                    let born = staffed.ants.rows.last();
                    assert(staffed.ants == scouted.ants.insert(born));
                    assert(born.id == scouted.ants.next_id);
                    scouted.ants.lemma_insert(born);
                }
            }
            s.colonies.lemma_update(stepped(colony));
        }
    }
}

/// The pass of steps leaves a managed colony whose queen is on record with
/// the stepped ledger once its own step has come, and as it was before.
pub proof fn lemma_steps_reach_each_colony_once(
    s: WorldView,
    now: u64,
    n: nat,
    colony_id: u32,
    queen_id: u32,
)
    requires
        on_record(s, colony_id, queen_id),
        s.colonies.get(colony_id).ai_enabled,
        s.colonies.get(colony_id).queen_id == Some(queen_id),
        n <= s.colonies.rows.len(),
    ensures
        on_record(managed_all(s, colony_ids(s), now, n), colony_id, queen_id),
        managed_all(s, colony_ids(s), now, n).colonies.rows.len() == s.colonies.rows.len(),
        managed_all(s, colony_ids(s), now, n).colonies.get(colony_id) == if s.colonies.index_of(
            colony_id,
        ) < n {
            stepped(s.colonies.get(colony_id))
        } else {
            s.colonies.get(colony_id)
        },
    decreases n,
{
    if n > 0 {
        lemma_steps_reach_each_colony_once(s, now, (n - 1) as nat, colony_id, queen_id);
        let so_far = managed_all(s, colony_ids(s), now, (n - 1) as nat);
        let stepping = colony_ids(s)[n - 1];
        let k = s.colonies.index_of(colony_id);
        assert(stepping == s.colonies.rows[n - 1].id);
        s.colonies.lemma_index_of(n - 1);
        s.colonies.lemma_index_of(k);
        lemma_step_touches_one_colony(so_far, stepping, now, colony_id, queen_id);
        if stepping == colony_id {
            assert(k == n - 1);
            assert(so_far.colonies.get(colony_id) == s.colonies.get(colony_id));
            assert(has_queen(so_far, so_far.colonies.get(colony_id)));
        } else {
            assert(k != n - 1);
        }
    }
}

/// After a whole tick a colony under autonomous control whose queen is on
/// record holds exactly this: its jelly less a tenth of a unit, but never
/// less than none; then, if that is below 50 units and the colony holds at
/// least 20 units of food, 10 units of food less and 5 units of jelly
/// more. Water, minerals and larvae are as they were, and nothing in the
/// ledger is negative. Flights and the steps of other colonies in the same
/// tick change none of this.
pub proof fn lemma_tick_ledger(s: WorldView, now: u64, colony_id: u32)
    requires
        s.wf(),
        s.colonies.contains(colony_id),
        s.colonies.get(colony_id).ai_enabled,
        has_queen(s, s.colonies.get(colony_id)),
        queen_of(s, s.colonies.get(colony_id)).ant_type != AntType::YoungQueen,
    ensures
        ({
            let before = s.colonies.get(colony_id);
            let after = colony_ai_tick_next(s, now).colonies.get(colony_id);
            let jelly = if before.queen_jelly < 100 {
                0int
            } else {
                before.queen_jelly - 100
            };
            &&& colony_ai_tick_next(s, now).colonies.contains(colony_id)
            &&& if jelly < 50_000 && before.food >= 20_000 {
                after.food == before.food - 10_000 && after.queen_jelly == jelly + 5000
            } else {
                after.food == before.food && after.queen_jelly == jelly
            }
            &&& after.water == before.water
            &&& after.minerals == before.minerals
            &&& after.larvae == before.larvae
            &&& after.food >= 0 && after.water >= 0 && after.minerals >= 0 && after.queen_jelly
                >= 0 && after.larvae >= 0
        }),
{
    let before = s.colonies.get(colony_id);
    let queen_id = before.queen_id->0;
    lemma_flights_keep_ledgers(s, ant_ids(s), now, s.ants.rows.len(), colony_id, queen_id);
    let flown_world = flights(s, ant_ids(s), now, s.ants.rows.len());
    lemma_steps_reach_each_colony_once(
        flown_world,
        now,
        flown_world.colonies.rows.len(),
        colony_id,
        queen_id,
    );
    flown_world.colonies.lemma_index_of(flown_world.colonies.index_of(colony_id));
}

} // verus!
