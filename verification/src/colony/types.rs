//! The records of the colony simulation.
//!
//! Quantities are fixed-point numbers in thousandths: a colony with
//! `food == 100 * UNIT` holds one hundred units of food, and a coordinate of
//! `-10 * COORD` lies ten world units below the surface.

use vstd::prelude::*;
use crate::identity::Identity;
use crate::table::Row;

verus! {

/// One whole unit of a resource, a speed or a rate.
pub const UNIT: u64 = 1000;

/// One world unit of length.
pub const COORD: i32 = 1000;

/// The caste of a creature.
#[derive(Clone, Copy, Debug, PartialEq, Eq, Structural)]
pub enum AntType {
    Queen,
    /// Matures, then leaves to found a colony of her own.
    YoungQueen,
    Worker,
    /// Turns food into jelly inside a burrow.
    RoyalWorker,
    Soldier,
    Scout,
    Major,
}

/// What a deposit holds and a creature carries.
#[derive(Clone, Copy, Debug, PartialEq, Eq, Structural)]
pub enum ResourceType {
    Food,
    Water,
    Minerals,
    Larvae,
}

/// The purpose of a chamber.
#[derive(Clone, Copy, Debug, PartialEq, Eq, Structural)]
pub enum ChamberType {
    Nursery,
    Storage,
    Barracks,
    ThroneRoom,
    Burrow,
}

/// What a creature is busy with. A task is set by the command that last
/// touched the creature and never expires by itself.
#[derive(Clone, Copy, Debug, PartialEq, Eq, Structural)]
pub enum TaskType {
    Idle,
    Gathering,
    Building,
    Fighting,
    Exploring,
    Returning,
    Digging,
}

/// A tag a creature is born with. The last three occur on young queens only
/// and shape the colony such a queen founds.
#[derive(Clone, Copy, Debug, PartialEq, Eq, Structural)]
pub enum AntTrait {
    AcidSpray,
    Venomous,
    Armored,
    Swift,
    Climber,
    Tunneler,
    Strong,
    Efficient,
    Industrious,
    Pheromone,
    Regenerator,
    Scout,
    Fertile,
    Matriarch,
    Survivor,
}

/// A point of the world; `z` is negative underground.
#[derive(Clone, Copy, Debug, PartialEq, Eq, Structural)]
pub struct Position {
    pub x: i32,
    pub y: i32,
    pub z: i32,
}

/// What a creature carries.
#[derive(Clone, Copy, Debug, PartialEq, Eq, Structural)]
pub struct Cargo {
    pub resource: ResourceType,
    pub amount: u64,
}

/// A player and the lifetime counters of that player's lineage.
#[derive(Clone, Debug)]
pub struct Player {
    pub id: Identity,
    pub username: String,
    pub created_at: u64,
    pub total_colonies: u32,
    /// Whole units deposited so far.
    pub resources_gathered: u64,
    pub generations_survived: u32,
    pub queens_produced: u32,
    /// Best score of a colony a young queen left, in whole points.
    pub best_colony_score: u64,
}

/// The mathematical content of a [`Player`].
pub struct PlayerView {
    pub id: Identity,
    pub username: Seq<char>,
    pub created_at: u64,
    pub total_colonies: u32,
    pub resources_gathered: u64,
    pub generations_survived: u32,
    pub queens_produced: u32,
    pub best_colony_score: u64,
}

impl View for Player {
    type V = PlayerView;

    open spec fn view(&self) -> PlayerView {
        PlayerView {
            id: self.id,
            username: self.username@,
            created_at: self.created_at,
            total_colonies: self.total_colonies,
            resources_gathered: self.resources_gathered,
            generations_survived: self.generations_survived,
            queens_produced: self.queens_produced,
            best_colony_score: self.best_colony_score,
        }
    }
}

/// A colony and its ledger.
#[derive(Clone, Copy, Debug, PartialEq, Eq, Structural)]
pub struct Colony {
    pub id: u32,
    pub player_id: Identity,
    pub queen_id: Option<u32>,
    pub food: u64,
    pub water: u64,
    pub minerals: u64,
    /// Unhatched eggs, counted whole.
    pub larvae: u32,
    pub queen_jelly: u64,
    pub population: u32,
    pub territory_radius: u64,
    pub created_at: u64,
    /// Whether the scheduler manages this colony.
    pub ai_enabled: bool,
    pub queen_trait: Option<AntTrait>,
}

/// A creature.
#[derive(Clone, Copy, Debug, PartialEq, Eq, Structural)]
pub struct Ant {
    pub id: u32,
    pub colony_id: u32,
    pub ant_type: AntType,
    pub position: Position,
    pub health: u32,
    pub max_health: u32,
    pub carrying: Option<Cargo>,
    pub task: TaskType,
    pub target: Option<Position>,
    pub speed: u32,
    pub attack_damage: u32,
    pub jelly_consumption_rate: u32,
    pub last_fed_at: u64,
    pub trait_type: Option<AntTrait>,
    /// For a young queen, the time from which she may fly.
    pub maturation_time: Option<u64>,
}

/// A tunnel between two points.
#[derive(Clone, Copy, Debug, PartialEq, Eq, Structural)]
pub struct Tunnel {
    pub id: u32,
    pub colony_id: u32,
    pub start: Position,
    pub end: Position,
    pub width: u32,
}

/// A room of a colony.
#[derive(Clone, Copy, Debug, PartialEq, Eq, Structural)]
pub struct Chamber {
    pub id: u32,
    pub colony_id: u32,
    pub chamber_type: ChamberType,
    pub position: Position,
    pub level: u32,
    pub capacity: u32,
}

/// A deposit anywhere in the world; it belongs to no colony.
#[derive(Clone, Copy, Debug, PartialEq, Eq, Structural)]
pub struct ResourceNode {
    pub id: u32,
    pub resource_type: ResourceType,
    pub position: Position,
    pub amount: u64,
    pub max_amount: u64,
    pub regeneration_rate: u64,
}

/// A scent mark on a trail.
#[derive(Clone, Debug)]
pub struct Pheromone {
    pub id: u32,
    pub colony_id: u32,
    pub position: Position,
    pub strength: u64,
    pub pheromone_type: String,
    pub created_at: u64,
}

/// The record of one attack.
#[derive(Clone, Copy, Debug, PartialEq, Eq, Structural)]
pub struct Battle {
    pub id: u32,
    pub attacker_ant_id: u32,
    pub defender_ant_id: u32,
    pub position: Position,
    pub damage_dealt: u32,
    pub timestamp: u64,
}

/// A spot a scout has looked around from.
#[derive(Clone, Copy, Debug, PartialEq, Eq, Structural)]
pub struct ExploredTerritory {
    pub id: u32,
    pub colony_id: u32,
    pub position: Position,
    pub discovered_at: u64,
    pub has_resources: bool,
    pub has_threats: bool,
    pub threat_level: u32,
}

/// The record that a colony knows a deposit.
#[derive(Clone, Copy, Debug, PartialEq, Eq, Structural)]
pub struct DiscoveredResource {
    pub id: u32,
    pub colony_id: u32,
    pub resource_id: u32,
    pub discovered_at: u64,
}

/// A rock, plant, log or leaf on the surface. No command reads these yet.
#[derive(Clone, Debug)]
pub struct Obstacle {
    pub id: u32,
    pub obstacle_type: String,
    pub x: i32,
    pub y: i32,
    pub width: u32,
    pub height: u32,
    pub blocks_movement: bool,
}

/// An animal the colony may hunt. No command reads these yet.
#[derive(Clone, Debug)]
pub struct Prey {
    pub id: u32,
    pub prey_type: String,
    pub x: i32,
    pub y: i32,
    pub health: u32,
    pub max_health: u32,
    pub speed: u32,
    pub food_value: u64,
    pub flee_distance: u32,
}

/// An animal that hunts creatures. No command reads these yet.
#[derive(Clone, Debug)]
pub struct Predator {
    pub id: u32,
    pub predator_type: String,
    pub x: i32,
    pub y: i32,
    pub health: u32,
    pub max_health: u32,
    pub speed: u32,
    pub attack_damage: u32,
    pub hunt_radius: u32,
    pub target_ant_id: Option<u32>,
}

impl Row for Colony {
    open spec fn key(&self) -> u32 {
        self.id
    }

    fn id(&self) -> u32 {
        self.id
    }
}

impl Row for Ant {
    open spec fn key(&self) -> u32 {
        self.id
    }

    fn id(&self) -> u32 {
        self.id
    }
}

impl Row for Tunnel {
    open spec fn key(&self) -> u32 {
        self.id
    }

    fn id(&self) -> u32 {
        self.id
    }
}

impl Row for Chamber {
    open spec fn key(&self) -> u32 {
        self.id
    }

    fn id(&self) -> u32 {
        self.id
    }
}

impl Row for ResourceNode {
    open spec fn key(&self) -> u32 {
        self.id
    }

    fn id(&self) -> u32 {
        self.id
    }
}

impl Row for Pheromone {
    open spec fn key(&self) -> u32 {
        self.id
    }

    fn id(&self) -> u32 {
        self.id
    }
}

impl Row for Battle {
    open spec fn key(&self) -> u32 {
        self.id
    }

    fn id(&self) -> u32 {
        self.id
    }
}

impl Row for ExploredTerritory {
    open spec fn key(&self) -> u32 {
        self.id
    }

    fn id(&self) -> u32 {
        self.id
    }
}

impl Row for DiscoveredResource {
    open spec fn key(&self) -> u32 {
        self.id
    }

    fn id(&self) -> u32 {
        self.id
    }
}

} // verus!
