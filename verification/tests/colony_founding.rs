use insect_colony_wars::colony::founding::{create_colony, create_player, respawn_as_queen};
use insect_colony_wars::colony::types::{
    AntTrait, AntType, ChamberType, Position, ResourceType, TaskType,
};
use insect_colony_wars::colony::world::{init, is_well_formed, World};
use insect_colony_wars::error::{CommandError, Entity};
use insect_colony_wars::identity::{Context, Identity};

fn who(n: u128) -> Identity {
    Identity { hi: 0, lo: n }
}

fn at(n: u128, time: u64) -> Context {
    Context { sender: who(n), timestamp: time }
}

fn world_with_alice() -> World {
    let mut world = init(42);
    assert_eq!(create_player(&mut world, at(1, 100), String::from("alice")), Ok(()));
    world
}

#[test]
fn init_places_four_deposits() {
    let world = init(42);
    assert!(is_well_formed(&world));
    assert_eq!(world.rng.state, 42);
    assert!(world.players.is_empty());
    assert!(world.colonies.rows.is_empty());
    assert_eq!(world.resource_nodes.rows.len(), 4);
    assert_eq!(world.resource_nodes.next_id, 5);
    let expected = [
        (1, ResourceType::Food, 50_000, 50_000, 0),
        (2, ResourceType::Food, -50_000, -50_000, 0),
        (3, ResourceType::Minerals, 100_000, -100_000, -20_000),
        (4, ResourceType::Minerals, -100_000, 100_000, -20_000),
    ];
    for (k, (id, kind, x, y, z)) in expected.iter().enumerate() {
        let node = world.resource_nodes.rows[k];
        assert_eq!(node.id, *id);
        assert_eq!(node.resource_type, *kind);
        assert_eq!(node.position, Position { x: *x, y: *y, z: *z });
        assert_eq!(node.amount, 1_000_000);
        assert_eq!(node.max_amount, 1_000_000);
        assert_eq!(node.regeneration_rate, 1000);
    }
}

#[test]
fn colony_player_is_created_once() {
    let mut world = world_with_alice();
    assert_eq!(world.players.len(), 1);
    let alice = &world.players[0];
    assert_eq!(alice.id, who(1));
    assert_eq!(alice.username, "alice");
    assert_eq!(alice.created_at, 100);
    assert_eq!(alice.total_colonies, 0);
    assert_eq!(alice.resources_gathered, 0);
    assert_eq!(alice.generations_survived, 0);
    assert_eq!(alice.queens_produced, 0);
    assert_eq!(alice.best_colony_score, 0);
    assert_eq!(
        create_player(&mut world, at(1, 200), String::from("alice again")),
        Err(CommandError::InvalidState)
    );
    assert_eq!(world.players.len(), 1);
    assert_eq!(world.players[0].username, "alice");
    assert_eq!(create_player(&mut world, at(2, 200), String::from("bob")), Ok(()));
    assert_eq!(world.players.len(), 2);
}

#[test]
fn fresh_player_founds_a_standard_colony() {
    let mut world = world_with_alice();
    assert_eq!(create_colony(&mut world, at(1, 150), 0, 0), Ok(1));
    assert_eq!(world.colonies.rows.len(), 1);
    let colony = world.colonies.rows[0];
    assert_eq!(colony.id, 1);
    assert_eq!(colony.player_id, who(1));
    assert_eq!(colony.queen_id, Some(1));
    assert_eq!(colony.food, 100_000);
    assert_eq!(colony.water, 50_000);
    assert_eq!(colony.minerals, 0);
    assert_eq!(colony.larvae, 5);
    assert_eq!(colony.queen_jelly, 100_000);
    assert_eq!(colony.population, 1);
    assert_eq!(colony.territory_radius, 50_000);
    assert_eq!(colony.created_at, 150);
    assert!(colony.ai_enabled);
    assert_eq!(colony.queen_trait, None);

    assert_eq!(world.ants.rows.len(), 6);
    let queen = world.ants.rows[0];
    assert_eq!(queen.id, 1);
    assert_eq!(queen.colony_id, 1);
    assert_eq!(queen.ant_type, AntType::Queen);
    assert_eq!(queen.position, Position { x: 0, y: 0, z: -10_000 });
    assert_eq!((queen.health, queen.max_health), (200, 200));
    assert_eq!((queen.speed, queen.attack_damage), (500, 50));
    assert_eq!(queen.jelly_consumption_rate, 0);
    assert_eq!(queen.task, TaskType::Idle);
    assert_eq!(queen.target, None);
    assert_eq!(queen.carrying, None);
    assert_eq!(queen.trait_type, None);
    assert_eq!(queen.maturation_time, None);
    assert_eq!(queen.last_fed_at, 150);

    let workers: Vec<_> =
        world.ants.rows.iter().filter(|a| a.ant_type == AntType::Worker).collect();
    assert_eq!(workers.len(), 5);
    let traits = [
        AntTrait::Pheromone,
        AntTrait::Industrious,
        AntTrait::Efficient,
        AntTrait::Efficient,
        AntTrait::Industrious,
    ];
    for (k, worker) in workers.iter().enumerate() {
        let step = (2 * k as i32 - 4) * 1000;
        assert_eq!(worker.id, 2 + k as u32);
        assert_eq!(worker.colony_id, 1);
        assert_eq!(worker.position, Position { x: step, y: step, z: -10_000 });
        assert_eq!((worker.health, worker.max_health), (50, 50));
        assert_eq!((worker.speed, worker.attack_damage), (4000, 5));
        assert_eq!(worker.jelly_consumption_rate, 100);
        assert_eq!(worker.task, TaskType::Idle);
        assert_eq!(worker.trait_type, Some(traits[k]));
        assert_eq!(worker.maturation_time, None);
    }
    assert_eq!(world.rng.state, 12546512532490043765);

    assert_eq!(world.chambers.rows.len(), 1);
    let throne = world.chambers.rows[0];
    assert_eq!((throne.id, throne.colony_id), (1, 1));
    assert_eq!(throne.chamber_type, ChamberType::ThroneRoom);
    assert_eq!(throne.position, Position { x: 0, y: 0, z: -10_000 });
    assert_eq!((throne.level, throne.capacity), (1, 1));

    assert_eq!(world.players[0].total_colonies, 1);
    assert!(is_well_formed(&world));
}

#[test]
fn founding_needs_a_player() {
    let mut world = init(42);
    assert_eq!(
        create_colony(&mut world, at(1, 150), 0, 0),
        Err(CommandError::NotFound(Entity::Player))
    );
    assert_eq!(
        respawn_as_queen(&mut world, at(1, 150), 0, 0),
        Err(CommandError::NotFound(Entity::Player))
    );
    assert!(world.colonies.rows.is_empty());
    assert!(world.ants.rows.is_empty());
    assert!(world.chambers.rows.is_empty());
    assert_eq!(world.rng.state, 42);
}

#[test]
fn founding_needs_identifiers() {
    let mut world = world_with_alice();
    world.ants.next_id = u32::MAX - 5;
    assert_eq!(create_colony(&mut world, at(1, 150), 0, 0), Err(CommandError::Exhausted));
    assert!(world.colonies.rows.is_empty());
    assert!(world.ants.rows.is_empty());
    assert_eq!(world.players[0].total_colonies, 0);
    world.ants.next_id = u32::MAX - 6;
    assert_eq!(create_colony(&mut world, at(1, 150), 0, 0), Ok(1));
    assert_eq!(world.ants.next_id, u32::MAX);
    assert_eq!(respawn_as_queen(&mut world, at(1, 160), 0, 0), Err(CommandError::Exhausted));
    assert_eq!(world.colonies.rows.len(), 1);
    assert!(is_well_formed(&world));
}

#[test]
fn workers_at_the_edge_of_the_world_stay_inside() {
    let mut world = world_with_alice();
    assert_eq!(create_colony(&mut world, at(1, 150), i32::MAX, i32::MIN), Ok(1));
    assert_eq!(world.ants.rows[1].position.x, i32::MAX - 4000);
    assert_eq!(world.ants.rows[1].position.y, i32::MIN);
    assert_eq!(world.ants.rows[5].position.x, i32::MAX);
    assert_eq!(world.ants.rows[5].position.y, i32::MIN + 4000);
}

#[test]
fn respawn_replaces_the_callers_colonies() {
    let mut world = world_with_alice();
    create_player(&mut world, at(2, 101), String::from("bob")).unwrap();
    assert_eq!(create_colony(&mut world, at(1, 150), 0, 0), Ok(1));
    assert_eq!(create_colony(&mut world, at(2, 151), 90_000, 0), Ok(2));
    assert_eq!(create_colony(&mut world, at(1, 152), 0, 90_000), Ok(3));
    assert_eq!(world.ants.rows.len(), 18);
    let state = world.rng.state;

    assert_eq!(respawn_as_queen(&mut world, at(1, 200), 7000, -3000), Ok(4));
    let ids: Vec<u32> = world.colonies.rows.iter().map(|c| c.id).collect();
    assert_eq!(ids, vec![2, 4]);
    let bobs = world.colonies.rows[0];
    assert_eq!(bobs.player_id, who(2));
    assert_eq!(bobs.population, 1);
    let colony = world.colonies.rows[1];
    assert_eq!(colony.player_id, who(1));
    assert_eq!(colony.queen_id, Some(19));
    assert_eq!(colony.food, 0);
    assert_eq!(colony.water, 10_000);
    assert_eq!(colony.minerals, 0);
    assert_eq!(colony.larvae, 0);
    assert_eq!(colony.queen_jelly, 18_000);
    assert_eq!(colony.population, 2);
    assert_eq!(colony.territory_radius, 30_000);
    assert_eq!(colony.created_at, 200);
    assert!(!colony.ai_enabled);

    let ant_ids: Vec<u32> = world.ants.rows.iter().map(|a| a.id).collect();
    assert_eq!(ant_ids, vec![7, 8, 9, 10, 11, 12, 19, 20]);
    assert!(world.ants.rows[..6].iter().all(|a| a.colony_id == 2));
    let queen = world.ants.rows[6];
    assert_eq!(queen.ant_type, AntType::Queen);
    assert_eq!(queen.colony_id, 4);
    assert_eq!(queen.position, Position { x: 7000, y: -3000, z: -5000 });
    assert_eq!(queen.trait_type, None);
    let worker = world.ants.rows[7];
    assert_eq!(worker.ant_type, AntType::Worker);
    assert_eq!(worker.colony_id, 4);
    assert_eq!(worker.position, Position { x: 12_000, y: 2000, z: -5000 });
    assert_eq!(worker.task, TaskType::Idle);
    assert!(worker.trait_type.is_some());
    assert_ne!(world.rng.state, state);

    let chambers: Vec<(u32, u32)> =
        world.chambers.rows.iter().map(|c| (c.id, c.colony_id)).collect();
    assert_eq!(chambers, vec![(2, 2), (4, 4)]);
    assert_eq!(world.chambers.rows[1].position, Position { x: 7000, y: -3000, z: -5000 });
    assert_eq!(world.players[0].total_colonies, 3);
    assert_eq!(world.players[1].total_colonies, 1);
    assert!(is_well_formed(&world));
}

#[test]
fn respawn_without_colonies_just_founds() {
    let mut world = world_with_alice();
    assert_eq!(respawn_as_queen(&mut world, at(1, 200), 0, 0), Ok(1));
    assert_eq!(world.colonies.rows.len(), 1);
    assert_eq!(world.ants.rows.len(), 2);
    assert_eq!(world.ants.rows[1].trait_type, Some(AntTrait::Pheromone));
    assert_eq!(world.rng.state, 10481999410520546993);
    assert_eq!(world.players[0].total_colonies, 1);
}

#[test]
fn a_tampered_world_is_not_well_formed() {
    let mut world = world_with_alice();
    create_colony(&mut world, at(1, 150), 0, 0).unwrap();
    assert!(is_well_formed(&world));
    world.colonies.rows[0].population = 7;
    assert!(!is_well_formed(&world));
    world.colonies.rows[0].population = 6;
    assert!(is_well_formed(&world));
    world.ants.rows[2].health = 0;
    assert!(!is_well_formed(&world));
    world.ants.rows[2].health = 51;
    assert!(!is_well_formed(&world));
    world.ants.rows[2].health = 50;
    world.ants.rows[3].id = 3;
    assert!(!is_well_formed(&world));
    world.ants.rows[3].id = 4;
    world.ants.next_id = 7;
    assert!(is_well_formed(&world));
    world.ants.next_id = 6;
    assert!(!is_well_formed(&world));
    world.ants.next_id = 7;
    // a creature of a colony that is still to come
    world.ants.rows[2].colony_id = 2;
    assert!(!is_well_formed(&world));
    world.ants.rows[2].colony_id = 1;
    // a queen who is still to come
    world.colonies.rows[0].queen_id = Some(7);
    assert!(!is_well_formed(&world));
    world.colonies.rows[0].queen_id = Some(6);
    assert!(is_well_formed(&world));
    world.colonies.rows[0].queen_id = None;
    assert!(is_well_formed(&world));
}
