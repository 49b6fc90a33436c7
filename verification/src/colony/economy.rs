//! The economy ledger: what each action costs, whether a colony can pay,
//! and what is left once it has paid.

use vstd::prelude::*;
use crate::colony::geometry::{distance, distance_3d};
use crate::colony::types::{AntType, ChamberType, Colony, Position, UNIT};
use crate::error::Shortage;

verus! {

/// What an action takes from a colony's ledger.
#[derive(Clone, Copy, Debug, PartialEq, Eq, Structural)]
pub struct Cost {
    pub food: u64,
    pub water: u64,
    pub minerals: u64,
    pub larvae: u32,
    pub jelly: u64,
}

/// Jelly one thousandth of a world unit of travel costs, as a divisor: a
/// creature pays a hundredth of the distance it is sent.
pub const TRAVEL_DIVISOR: u64 = 100;

/// Jelly the queen spends on one larva.
pub const LARVA_JELLY: u64 = 500;

/// Food a royal worker turns into jelly at a time.
pub const CONVERSION_FOOD: u64 = 5000;

/// Jelly a royal worker makes of that food: half as much.
pub const CONVERSION_JELLY: u64 = 2500;

/// The first ledger entry that falls short of `cost`, looking at larvae,
/// jelly, food, water and minerals in this order.
pub open spec fn first_shortage(colony: Colony, cost: Cost) -> Option<Shortage> {
    if colony.larvae < cost.larvae {
        Some(Shortage::Larvae)
    } else if colony.queen_jelly < cost.jelly {
        Some(Shortage::Jelly)
    } else if colony.food < cost.food {
        Some(Shortage::Food)
    } else if colony.water < cost.water {
        Some(Shortage::Water)
    } else if colony.minerals < cost.minerals {
        Some(Shortage::Minerals)
    } else {
        None
    }
}

/// The colony holds at least `cost` of everything.
pub open spec fn affordable(colony: Colony, cost: Cost) -> bool {
    &&& colony.larvae >= cost.larvae
    &&& colony.queen_jelly >= cost.jelly
    &&& colony.food >= cost.food
    &&& colony.water >= cost.water
    &&& colony.minerals >= cost.minerals
}

/// The colony once `cost` is taken from its ledger.
pub open spec fn after_cost(colony: Colony, cost: Cost) -> Colony {
    Colony {
        food: (colony.food - cost.food) as u64,
        water: (colony.water - cost.water) as u64,
        minerals: (colony.minerals - cost.minerals) as u64,
        larvae: (colony.larvae - cost.larvae) as u32,
        queen_jelly: (colony.queen_jelly - cost.jelly) as u64,
        ..colony
    }
}

/// The listed price of a creature. Queens are not for sale.
pub open spec fn ant_price(ant_type: AntType) -> Option<Cost> {
    match ant_type {
        AntType::Worker => Some(
            Cost { food: 10_000, water: 0, minerals: 0, larvae: 1, jelly: 2_000 },
        ),
        AntType::RoyalWorker => Some(
            Cost { food: 20_000, water: 0, minerals: 0, larvae: 1, jelly: 5_000 },
        ),
        AntType::Soldier => Some(
            Cost { food: 20_000, water: 0, minerals: 0, larvae: 1, jelly: 3_000 },
        ),
        AntType::Scout => Some(
            Cost { food: 15_000, water: 0, minerals: 0, larvae: 1, jelly: 2500 },
        ),
        AntType::Major => Some(
            Cost { food: 50_000, water: 0, minerals: 10_000, larvae: 2, jelly: 5_000 },
        ),
        AntType::YoungQueen => Some(
            Cost { food: 50_000, water: 20_000, minerals: 0, larvae: 1, jelly: 50_000 },
        ),
        AntType::Queen => None,
    }
}

/// The first worker a queen raises alone costs a single unit of jelly.
pub open spec fn is_first_worker(colony: Colony, ant_type: AntType) -> bool {
    colony.population == 1 && ant_type == AntType::Worker
}

/// What raising a creature actually takes from `colony`: the listed price,
/// with the jelly of a first worker lowered to one unit.
pub open spec fn ant_charge(colony: Colony, ant_type: AntType) -> Cost {
    let price = ant_price(ant_type)->0;
    if is_first_worker(colony, ant_type) {
        Cost { jelly: UNIT, ..price }
    } else {
        price
    }
}

/// The colony can pay the listed price of a creature of this type.
pub open spec fn affordable_ant(colony: Colony, ant_type: AntType) -> bool {
    ant_price(ant_type) matches Some(price) && affordable(colony, price)
}

/// The price of a chamber. Only a burrow costs jelly.
pub open spec fn chamber_price(chamber_type: ChamberType) -> Cost {
    match chamber_type {
        ChamberType::Nursery => Cost {
            food: 50_000,
            water: 0,
            minerals: 10_000,
            larvae: 0,
            jelly: 0,
        },
        ChamberType::Storage => Cost {
            food: 30_000,
            water: 0,
            minerals: 20_000,
            larvae: 0,
            jelly: 0,
        },
        ChamberType::Barracks => Cost {
            food: 100_000,
            water: 0,
            minerals: 50_000,
            larvae: 0,
            jelly: 0,
        },
        ChamberType::ThroneRoom => Cost {
            food: 200_000,
            water: 0,
            minerals: 100_000,
            larvae: 0,
            jelly: 0,
        },
        ChamberType::Burrow => Cost {
            food: 20_000,
            water: 0,
            minerals: 5_000,
            larvae: 0,
            jelly: 10_000,
        },
    }
}

/// How much a chamber holds. A burrow is a marker and holds nothing.
pub open spec fn chamber_capacity(chamber_type: ChamberType) -> u32 {
    match chamber_type {
        ChamberType::Nursery => 20,
        ChamberType::Storage => 100,
        ChamberType::Barracks => 50,
        ChamberType::ThroneRoom => 1,
        ChamberType::Burrow => 0,
    }
}

/// Jelly it costs to send a creature from `from` to `to`: a hundredth of
/// the distance, rounded down to a thousandth of a unit.
pub open spec fn move_cost(from: Position, to: Position) -> int {
    distance(from, to) / (TRAVEL_DIVISOR as int)
}

/// A colony's score in thousandths of a point: food, water, twice the
/// minerals, five times the jelly, and ten points a head.
pub open spec fn colony_score(colony: Colony) -> int {
    colony.food + colony.water + 2 * colony.minerals + 5 * colony.queen_jelly + 10_000
        * colony.population
}

/// A colony's score in whole points.
pub open spec fn colony_points(colony: Colony) -> int {
    colony_score(colony) / 1000
}

/// `amount` more of a resource; a ledger entry stops at the largest value it
/// can hold.
pub open spec fn credited(held: u64, amount: u64) -> u64 {
    if held + amount > u64::MAX {
        u64::MAX
    } else {
        (held + amount) as u64
    }
}

/// The first entry of the ledger that cannot cover `cost`, if any.
pub fn shortage(colony: &Colony, cost: &Cost) -> (short: Option<Shortage>)
    ensures
        short == first_shortage(*colony, *cost),
{
    if colony.larvae < cost.larvae {
        Some(Shortage::Larvae)
    } else if colony.queen_jelly < cost.jelly {
        Some(Shortage::Jelly)
    } else if colony.food < cost.food {
        Some(Shortage::Food)
    } else if colony.water < cost.water {
        Some(Shortage::Water)
    } else if colony.minerals < cost.minerals {
        Some(Shortage::Minerals)
    } else {
        None
    }
}

/// Whether the colony can pay `cost`.
pub fn can_afford(colony: &Colony, cost: &Cost) -> (ok: bool)
    ensures
        ok == affordable(*colony, *cost),
{
    colony.larvae >= cost.larvae && colony.queen_jelly >= cost.jelly && colony.food >= cost.food
        && colony.water >= cost.water && colony.minerals >= cost.minerals
}

/// Takes `cost` from the colony's ledger. Nothing else changes.
pub fn apply_cost(colony: &mut Colony, cost: &Cost)
    requires
        affordable(*old(colony), *cost),
    ensures
        *final(colony) == after_cost(*old(colony), *cost),
{
    colony.food = colony.food - cost.food;
    colony.water = colony.water - cost.water;
    colony.minerals = colony.minerals - cost.minerals;
    colony.larvae = colony.larvae - cost.larvae;
    colony.queen_jelly = colony.queen_jelly - cost.jelly;
}

/// The listed price of a creature, or nothing for a queen.
pub fn price_of_ant(ant_type: AntType) -> (price: Option<Cost>)
    ensures
        price == ant_price(ant_type),
{
    match ant_type {
        AntType::Worker => Some(
            Cost { food: 10_000, water: 0, minerals: 0, larvae: 1, jelly: 2_000 },
        ),
        AntType::RoyalWorker => Some(
            Cost { food: 20_000, water: 0, minerals: 0, larvae: 1, jelly: 5_000 },
        ),
        AntType::Soldier => Some(
            Cost { food: 20_000, water: 0, minerals: 0, larvae: 1, jelly: 3_000 },
        ),
        AntType::Scout => Some(
            Cost { food: 15_000, water: 0, minerals: 0, larvae: 1, jelly: 2500 },
        ),
        AntType::Major => Some(
            Cost { food: 50_000, water: 0, minerals: 10_000, larvae: 2, jelly: 5_000 },
        ),
        AntType::YoungQueen => Some(
            Cost { food: 50_000, water: 20_000, minerals: 0, larvae: 1, jelly: 50_000 },
        ),
        AntType::Queen => None,
    }
}

/// Whether the colony can pay the listed price of a creature of this type.
/// No colony can afford a queen.
pub fn can_afford_ant(colony: &Colony, ant_type: AntType) -> (ok: bool)
    ensures
        ok == affordable_ant(*colony, ant_type),
{
    match price_of_ant(ant_type) {
        Some(price) => can_afford(colony, &price),
        None => false,
    }
}

/// What raising a creature of this type takes from the colony.
pub fn charge_for_ant(colony: &Colony, ant_type: AntType) -> (charge: Cost)
    requires
        ant_type != AntType::Queen,
    ensures
        charge == ant_charge(*colony, ant_type),
{
    let price = match price_of_ant(ant_type) {
        Some(price) => price,
        None => Cost { food: 0, water: 0, minerals: 0, larvae: 0, jelly: 0 },
    };
    if colony.population == 1 && ant_type == AntType::Worker {
        Cost { jelly: UNIT, ..price }
    } else {
        price
    }
}

/// The price of a chamber.
pub fn price_of_chamber(chamber_type: ChamberType) -> (price: Cost)
    ensures
        price == chamber_price(chamber_type),
{
    match chamber_type {
        ChamberType::Nursery => Cost {
            food: 50_000,
            water: 0,
            minerals: 10_000,
            larvae: 0,
            jelly: 0,
        },
        ChamberType::Storage => Cost {
            food: 30_000,
            water: 0,
            minerals: 20_000,
            larvae: 0,
            jelly: 0,
        },
        ChamberType::Barracks => Cost {
            food: 100_000,
            water: 0,
            minerals: 50_000,
            larvae: 0,
            jelly: 0,
        },
        ChamberType::ThroneRoom => Cost {
            food: 200_000,
            water: 0,
            minerals: 100_000,
            larvae: 0,
            jelly: 0,
        },
        ChamberType::Burrow => Cost {
            food: 20_000,
            water: 0,
            minerals: 5_000,
            larvae: 0,
            jelly: 10_000,
        },
    }
}

/// How much a chamber of this type holds.
pub fn capacity_of_chamber(chamber_type: ChamberType) -> (capacity: u32)
    ensures
        capacity == chamber_capacity(chamber_type),
{
    match chamber_type {
        ChamberType::Nursery => 20,
        ChamberType::Storage => 100,
        ChamberType::Barracks => 50,
        ChamberType::ThroneRoom => 1,
        ChamberType::Burrow => 0,
    }
}

/// Jelly it costs to send a creature from `from` to `to`.
pub fn travel_cost(from: Position, to: Position) -> (cost: u64)
    ensures
        cost == move_cost(from, to),
        cost < 0x800_0000,
{
    distance_3d(from, to) / TRAVEL_DIVISOR
}

/// A colony's score in whole points.
pub fn score_of(colony: &Colony) -> (points: u64)
    ensures
        points == colony_points(*colony),
{
    let heads: u128 = 10_000 * (colony.population as u128);
    let score: u128 = colony.food as u128 + colony.water as u128 + 2 * (colony.minerals as u128)
        + 5 * (colony.queen_jelly as u128) + heads;
    (score / 1000) as u64
}

/// Adds `amount` to a ledger entry, stopping at the largest value it holds.
pub fn credit(held: u64, amount: u64) -> (total: u64)
    ensures
        total == credited(held, amount),
{
    held.saturating_add(amount)
}

} // verus!
