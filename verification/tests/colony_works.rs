use insect_colony_wars::colony::construction::{build_chamber, dig_tunnel};
use insect_colony_wars::colony::exploration::{discover_resources, lay_pheromone};
use insect_colony_wars::colony::founding::{create_colony, create_player};
use insect_colony_wars::colony::larva::feed_larva;
use insect_colony_wars::colony::production::{deposit_resources, produce_jelly};
use insect_colony_wars::colony::types::{
    AntType, Cargo, ChamberType, Position, ResourceType, TaskType,
};
use insect_colony_wars::colony::world::{init, is_well_formed, World};
use insect_colony_wars::error::{CommandError, Entity, Shortage};
use insect_colony_wars::identity::{Context, Identity};

fn who(n: u128) -> Identity {
    Identity { hi: 0, lo: n }
}

fn at(n: u128, time: u64) -> Context {
    Context { sender: who(n), timestamp: time }
}

fn settled_world() -> World {
    let mut world = init(42);
    create_player(&mut world, at(1, 100), String::from("alice")).unwrap();
    create_player(&mut world, at(2, 100), String::from("bob")).unwrap();
    create_colony(&mut world, at(1, 150), 0, 0).unwrap();
    world
}

#[test]
fn a_worker_builds_a_nursery() {
    let mut world = settled_world();
    world.colonies.rows[0].minerals = 25_000;
    assert_eq!(build_chamber(&mut world, at(1, 200), 2, ChamberType::Nursery, 1, 2, 3), Ok(2));
    let colony = world.colonies.rows[0];
    assert_eq!((colony.food, colony.minerals, colony.queen_jelly), (50_000, 15_000, 100_000));
    let chamber = world.chambers.rows[1];
    assert_eq!((chamber.id, chamber.colony_id), (2, 1));
    assert_eq!(chamber.chamber_type, ChamberType::Nursery);
    assert_eq!(chamber.position, Position { x: 1, y: 2, z: 3 });
    assert_eq!((chamber.level, chamber.capacity), (1, 20));
    assert!(is_well_formed(&world));
}

#[test]
fn chambers_have_their_prices_and_capacities() {
    let cases = [
        (ChamberType::Storage, 30_000, 20_000, 100),
        (ChamberType::Barracks, 100_000, 50_000, 50),
        (ChamberType::ThroneRoom, 200_000, 100_000, 1),
    ];
    for (chamber_type, food, minerals, capacity) in cases {
        let mut world = settled_world();
        world.colonies.rows[0].food = 250_000;
        world.colonies.rows[0].minerals = 150_000;
        assert_eq!(build_chamber(&mut world, at(1, 200), 3, chamber_type, 0, 0, 0), Ok(2));
        let colony = world.colonies.rows[0];
        assert_eq!(colony.food, 250_000 - food);
        assert_eq!(colony.minerals, 150_000 - minerals);
        assert_eq!(colony.queen_jelly, 100_000);
        assert_eq!(world.chambers.rows[1].capacity, capacity);
    }
}

#[test]
fn only_the_queen_builds_burrows() {
    let mut world = settled_world();
    world.colonies.rows[0].minerals = 5000;
    assert_eq!(
        build_chamber(&mut world, at(1, 200), 2, ChamberType::Burrow, 0, 0, 0),
        Err(CommandError::InvalidState)
    );
    assert_eq!(
        build_chamber(&mut world, at(1, 200), 1, ChamberType::Nursery, 0, 0, 0),
        Err(CommandError::InvalidState)
    );
    assert_eq!(build_chamber(&mut world, at(1, 200), 1, ChamberType::Burrow, 0, 0, -9000), Ok(2));
    let colony = world.colonies.rows[0];
    assert_eq!((colony.food, colony.minerals, colony.queen_jelly), (80_000, 0, 90_000));
    assert_eq!(world.chambers.rows[1].chamber_type, ChamberType::Burrow);
    assert_eq!(world.chambers.rows[1].capacity, 0);
}

#[test]
fn building_is_guarded() {
    let mut world = settled_world();
    feed_larva(&mut world, at(1, 160), 1, AntType::Soldier, 0, 0, 0).unwrap();
    assert_eq!(
        build_chamber(&mut world, at(1, 200), 7, ChamberType::Storage, 0, 0, 0),
        Err(CommandError::InvalidState)
    );
    assert_eq!(
        build_chamber(&mut world, at(1, 200), 2, ChamberType::Storage, 0, 0, 0),
        Err(CommandError::InsufficientResources(Shortage::Minerals))
    );
    world.colonies.rows[0].minerals = 20_000;
    world.colonies.rows[0].food = 29_999;
    assert_eq!(
        build_chamber(&mut world, at(1, 200), 2, ChamberType::Storage, 0, 0, 0),
        Err(CommandError::InsufficientResources(Shortage::Food))
    );
    world.colonies.rows[0].food = 30_000;
    world.colonies.rows[0].queen_jelly = 9999;
    assert_eq!(
        build_chamber(&mut world, at(1, 200), 1, ChamberType::Burrow, 0, 0, 0),
        Err(CommandError::InsufficientResources(Shortage::Jelly))
    );
    assert_eq!(
        build_chamber(&mut world, at(2, 200), 2, ChamberType::Storage, 0, 0, 0),
        Err(CommandError::Unauthorized)
    );
    assert_eq!(
        build_chamber(&mut world, at(1, 200), 99, ChamberType::Storage, 0, 0, 0),
        Err(CommandError::NotFound(Entity::Ant))
    );
    assert_eq!(world.chambers.rows.len(), 1);
    assert_eq!(world.colonies.rows[0].food, 30_000);
    // the colony's record is lost
    world.colonies.rows.remove(0);
    assert!(is_well_formed(&world));
    assert_eq!(
        build_chamber(&mut world, at(1, 200), 2, ChamberType::Storage, 0, 0, 0),
        Err(CommandError::NotFound(Entity::Colony))
    );
    assert_eq!(world.chambers.rows.len(), 1);
}

#[test]
fn a_tunnel_needs_a_worker_in_reach() {
    let mut world = settled_world();
    let start = Position { x: 4000, y: 4000, z: -19_999 };
    let end = Position { x: 50_000, y: 0, z: -30_000 };
    assert_eq!(dig_tunnel(&mut world, at(1, 200), 1, start, end), Ok(1));
    let tunnel = world.tunnels.rows[0];
    assert_eq!((tunnel.id, tunnel.colony_id, tunnel.width), (1, 1, 2000));
    assert_eq!((tunnel.start, tunnel.end), (start, end));
    let far = Position { x: 4000, y: 4000, z: -20_000 };
    assert_eq!(dig_tunnel(&mut world, at(1, 201), 1, far, end), Err(CommandError::OutOfRange));
    assert_eq!(dig_tunnel(&mut world, at(2, 201), 1, start, end), Err(CommandError::Unauthorized));
    assert_eq!(
        dig_tunnel(&mut world, at(1, 201), 8, start, end),
        Err(CommandError::NotFound(Entity::Colony))
    );
    // the queen does not dig
    let by_queen = Position { x: 0, y: 0, z: -25_000 };
    world.ants.rows[3].position = Position { x: 90_000, y: 0, z: 0 };
    assert_eq!(dig_tunnel(&mut world, at(1, 202), 1, by_queen, end), Err(CommandError::OutOfRange));
    assert_eq!(world.tunnels.rows.len(), 1);
}

fn world_with_royal_worker() -> World {
    let mut world = settled_world();
    world.colonies.rows[0].minerals = 5000;
    build_chamber(&mut world, at(1, 160), 1, ChamberType::Burrow, 20_000, 0, 0).unwrap();
    feed_larva(&mut world, at(1, 161), 1, AntType::RoyalWorker, 20_000, 9999, 0).unwrap();
    world
}

#[test]
fn a_royal_worker_turns_food_into_jelly() {
    let mut world = world_with_royal_worker();
    let before = world.colonies.rows[0];
    assert_eq!((before.food, before.queen_jelly), (60_000, 85_000));
    assert_eq!(produce_jelly(&mut world, at(1, 200), 7), Ok(()));
    let colony = world.colonies.rows[0];
    assert_eq!((colony.food, colony.queen_jelly), (55_000, 87_500));
    assert_eq!(colony.larvae, before.larvae);
    assert_eq!(colony.population, before.population);
    assert!(is_well_formed(&world));
}

#[test]
fn jelly_is_made_in_burrows_only() {
    let mut world = world_with_royal_worker();
    world.ants.rows[6].position = Position { x: 20_000, y: 10_000, z: 0 };
    assert_eq!(produce_jelly(&mut world, at(1, 200), 7), Err(CommandError::OutOfRange));
    world.ants.rows[6].position = Position { x: 0, y: 0, z: -10_000 };
    assert_eq!(produce_jelly(&mut world, at(1, 200), 7), Err(CommandError::OutOfRange));
    world.ants.rows[6].position = Position { x: 20_000, y: 0, z: 0 };
    assert_eq!(produce_jelly(&mut world, at(1, 200), 2), Err(CommandError::InvalidState));
    assert_eq!(produce_jelly(&mut world, at(1, 200), 99), Err(CommandError::NotFound(Entity::Ant)));
    assert_eq!(produce_jelly(&mut world, at(2, 200), 7), Err(CommandError::Unauthorized));
    world.colonies.rows[0].food = 4999;
    assert_eq!(
        produce_jelly(&mut world, at(1, 200), 7),
        Err(CommandError::InsufficientResources(Shortage::Food))
    );
    assert_eq!(world.colonies.rows[0].queen_jelly, 85_000);
    world.colonies.rows[0].food = 5000;
    world.colonies.rows[0].queen_jelly = u64::MAX - 1;
    assert_eq!(produce_jelly(&mut world, at(1, 200), 7), Ok(()));
    assert_eq!(world.colonies.rows[0].queen_jelly, u64::MAX);
    assert_eq!(world.colonies.rows[0].food, 0);
}

#[test]
fn cargo_goes_into_the_ledger() {
    let cases = [
        (ResourceType::Food, 7500, (107_500, 50_000, 0, 5)),
        (ResourceType::Water, 7500, (100_000, 57_500, 0, 5)),
        (ResourceType::Minerals, 7500, (100_000, 50_000, 7500, 5)),
        (ResourceType::Larvae, 2999, (100_000, 50_000, 0, 7)),
    ];
    for (resource, amount, (food, water, minerals, larvae)) in cases {
        let mut world = settled_world();
        world.ants.rows[2].carrying = Some(Cargo { resource, amount });
        world.ants.rows[2].task = TaskType::Returning;
        assert_eq!(deposit_resources(&mut world, at(1, 200), 3), Ok(()));
        let colony = world.colonies.rows[0];
        assert_eq!((colony.food, colony.water), (food, water));
        assert_eq!((colony.minerals, colony.larvae), (minerals, larvae));
        assert_eq!(colony.queen_jelly, 100_000);
        assert_eq!(world.players[0].resources_gathered, amount / 1000);
        assert_eq!(world.players[1].resources_gathered, 0);
        assert_eq!(world.ants.rows[2].carrying, None);
        assert_eq!(world.ants.rows[2].task, TaskType::Idle);
        assert!(is_well_formed(&world));
    }
}

#[test]
fn empty_hands_deposit_nothing() {
    let mut world = settled_world();
    world.ants.rows[2].task = TaskType::Returning;
    let before = world.ants.rows.clone();
    assert_eq!(deposit_resources(&mut world, at(1, 200), 3), Ok(()));
    assert_eq!(world.ants.rows, before);
    assert_eq!(world.colonies.rows[0].food, 100_000);
    assert_eq!(world.players[0].resources_gathered, 0);
    assert_eq!(deposit_resources(&mut world, at(2, 200), 3), Err(CommandError::Unauthorized));
    assert_eq!(
        deposit_resources(&mut world, at(1, 200), 99),
        Err(CommandError::NotFound(Entity::Ant))
    );
}

#[test]
fn a_full_ledger_entry_stays_full() {
    let mut world = settled_world();
    world.colonies.rows[0].food = u64::MAX - 10;
    world.ants.rows[2].carrying = Some(Cargo { resource: ResourceType::Food, amount: 5000 });
    assert_eq!(deposit_resources(&mut world, at(1, 200), 3), Ok(()));
    assert_eq!(world.colonies.rows[0].food, u64::MAX);
    assert_eq!(world.players[0].resources_gathered, 5);
}

#[test]
fn a_scout_discovers_what_it_sees() {
    let mut world = settled_world();
    feed_larva(&mut world, at(1, 160), 1, AntType::Scout, 40_000, 40_000, 0).unwrap();
    assert_eq!(discover_resources(&mut world, at(1, 200), 7), Ok(()));
    assert_eq!(world.discovered.rows.len(), 1);
    let found = world.discovered.rows[0];
    assert_eq!((found.id, found.colony_id, found.resource_id), (1, 1, 1));
    assert_eq!(found.discovered_at, 200);
    assert_eq!(world.explored.rows.len(), 1);
    let spot = world.explored.rows[0];
    assert_eq!((spot.id, spot.colony_id), (1, 1));
    assert_eq!(spot.position, Position { x: 40_000, y: 40_000, z: 0 });
    assert_eq!(spot.discovered_at, 200);
    assert!(spot.has_resources);
    assert!(!spot.has_threats);
    assert_eq!(spot.threat_level, 0);
    assert_eq!(discover_resources(&mut world, at(1, 300), 7), Ok(()));
    assert_eq!(world.discovered.rows.len(), 1);
    assert_eq!(world.explored.rows.len(), 2);
    assert!(is_well_formed(&world));
}

#[test]
fn sight_ends_at_fifty_units() {
    let mut world = settled_world();
    feed_larva(&mut world, at(1, 160), 1, AntType::Scout, 0, 50_000, 0).unwrap();
    feed_larva(&mut world, at(1, 161), 1, AntType::Scout, -1, 50_000, 0).unwrap();
    feed_larva(&mut world, at(1, 162), 1, AntType::Scout, 0, 0, -20_000).unwrap();
    assert_eq!(discover_resources(&mut world, at(1, 200), 8), Ok(()));
    assert!(world.discovered.rows.is_empty());
    assert!(!world.explored.rows[0].has_resources);
    assert_eq!(discover_resources(&mut world, at(1, 201), 7), Ok(()));
    assert_eq!(world.discovered.rows.len(), 1);
    assert_eq!(world.discovered.rows[0].resource_id, 1);
    assert!(world.explored.rows[1].has_resources);
    assert_eq!(discover_resources(&mut world, at(1, 202), 9), Ok(()));
    assert_eq!(world.discovered.rows.len(), 1);
    world.resource_nodes.rows[2].position = Position { x: 30_000, y: 0, z: -20_000 };
    world.resource_nodes.rows[3].position = Position { x: 0, y: 30_000, z: -20_000 };
    assert_eq!(discover_resources(&mut world, at(1, 203), 9), Ok(()));
    let seen: Vec<(u32, u32)> =
        world.discovered.rows.iter().map(|d| (d.id, d.resource_id)).collect();
    assert_eq!(seen, vec![(1, 1), (2, 3), (3, 4)]);
}

#[test]
fn discovering_is_guarded() {
    let mut world = settled_world();
    feed_larva(&mut world, at(1, 160), 1, AntType::Scout, 40_000, 40_000, 0).unwrap();
    assert_eq!(discover_resources(&mut world, at(1, 200), 2), Err(CommandError::InvalidState));
    assert_eq!(discover_resources(&mut world, at(2, 200), 7), Err(CommandError::Unauthorized));
    assert_eq!(
        discover_resources(&mut world, at(1, 200), 99),
        Err(CommandError::NotFound(Entity::Ant))
    );
    world.discovered.next_id = u32::MAX - 3;
    assert_eq!(discover_resources(&mut world, at(1, 200), 7), Err(CommandError::Exhausted));
    world.discovered.next_id = u32::MAX - 4;
    world.explored.next_id = u32::MAX;
    assert_eq!(discover_resources(&mut world, at(1, 200), 7), Err(CommandError::Exhausted));
    assert!(world.discovered.rows.is_empty());
    assert!(world.explored.rows.is_empty());
    world.explored.next_id = 1;
    assert_eq!(discover_resources(&mut world, at(1, 200), 7), Ok(()));
    assert_eq!(world.discovered.rows[0].id, u32::MAX - 4);
}

#[test]
fn a_pheromone_mark_is_recorded() {
    let mut world = settled_world();
    assert_eq!(lay_pheromone(&mut world, at(1, 200), 1, 5, 6, 7, String::from("food")), Ok(1));
    let mark = &world.pheromones.rows[0];
    assert_eq!((mark.id, mark.colony_id), (1, 1));
    assert_eq!(mark.position, Position { x: 5, y: 6, z: 7 });
    assert_eq!(mark.strength, 100_000);
    assert_eq!(mark.pheromone_type, "food");
    assert_eq!(mark.created_at, 200);
    assert_eq!(
        lay_pheromone(&mut world, at(2, 200), 1, 5, 6, 7, String::from("danger")),
        Err(CommandError::Unauthorized)
    );
    assert_eq!(
        lay_pheromone(&mut world, at(1, 200), 3, 5, 6, 7, String::from("home")),
        Err(CommandError::NotFound(Entity::Colony))
    );
    assert_eq!(world.pheromones.rows.len(), 1);
    assert!(is_well_formed(&world));
}

#[test]
fn a_deposit_needs_the_owner_on_record() {
    let mut world = settled_world();
    world.ants.rows[2].carrying = Some(Cargo { resource: ResourceType::Food, amount: 5000 });
    world.colonies.rows[0].player_id = who(9);
    assert_eq!(
        deposit_resources(&mut world, at(9, 200), 3),
        Err(CommandError::NotFound(Entity::Player))
    );
    assert_eq!(world.colonies.rows[0].food, 100_000);
    assert!(world.ants.rows[2].carrying.is_some());
}

#[test]
fn chambers_and_tunnels_need_identifiers() {
    let mut world = settled_world();
    world.colonies.rows[0].minerals = 50_000;
    world.chambers.next_id = u32::MAX;
    assert_eq!(
        build_chamber(&mut world, at(1, 200), 2, ChamberType::Nursery, 0, 0, 0),
        Err(CommandError::Exhausted)
    );
    assert_eq!(world.colonies.rows[0].food, 100_000);
    world.tunnels.next_id = u32::MAX;
    let spot = Position { x: 0, y: 0, z: -10_000 };
    assert_eq!(dig_tunnel(&mut world, at(1, 200), 1, spot, spot), Err(CommandError::Exhausted));
    world.pheromones.next_id = u32::MAX;
    assert_eq!(
        lay_pheromone(&mut world, at(1, 200), 1, 0, 0, 0, String::from("home")),
        Err(CommandError::Exhausted)
    );
    assert!(world.tunnels.rows.is_empty());
    assert!(world.pheromones.rows.is_empty());
}
