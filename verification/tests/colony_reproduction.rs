use insect_colony_wars::colony::founding::{create_colony, create_player};
use insect_colony_wars::colony::larva::feed_larva;
use insect_colony_wars::colony::reproduction::nuptial_flight;
use insect_colony_wars::colony::types::{AntTrait, AntType, ChamberType, Position, TaskType};
use insect_colony_wars::colony::world::{init, is_well_formed, World};
use insect_colony_wars::error::{CommandError, Entity};
use insect_colony_wars::identity::{Context, Identity};

fn who(n: u128) -> Identity {
    Identity { hi: 0, lo: n }
}

fn at(n: u128, time: u64) -> Context {
    Context { sender: who(n), timestamp: time }
}

/// Alice's colony 1 with a young queen, creature 7, born a matriarch.
fn world_with_young_queen() -> World {
    let mut world = init(42);
    create_player(&mut world, at(1, 100), String::from("alice")).unwrap();
    create_player(&mut world, at(2, 100), String::from("bob")).unwrap();
    create_colony(&mut world, at(1, 150), 0, 0).unwrap();
    assert_eq!(feed_larva(&mut world, at(1, 1000), 1, AntType::YoungQueen, 0, 0, 0), Ok(7));
    world
}

#[test]
fn a_young_queen_founds_a_daughter_colony() {
    let mut world = world_with_young_queen();
    assert_eq!(world.ants.rows[6].trait_type, Some(AntTrait::Matriarch));
    assert_eq!(nuptial_flight(&mut world, at(1, 2000), 7), Ok(2));

    let alice = &world.players[0];
    assert_eq!(alice.queens_produced, 1);
    assert_eq!(alice.generations_survived, 1);
    // 50 food + 30 water + 5 x 50 jelly + 10 x 2 creatures
    assert_eq!(alice.best_colony_score, 350);
    assert_eq!(alice.total_colonies, 1);
    assert_eq!(world.players[1].queens_produced, 0);

    assert!(world.ants.rows.iter().all(|a| a.id != 7));
    let parent = world.colonies.rows[0];
    assert_eq!(parent.population, 1);
    assert_eq!((parent.food, parent.water, parent.queen_jelly), (50_000, 30_000, 50_000));

    let daughter = world.colonies.rows[1];
    assert_eq!(daughter.id, 2);
    assert_eq!(daughter.player_id, who(1));
    assert_eq!(daughter.queen_id, Some(8));
    assert_eq!(daughter.food, 21_000);
    assert_eq!(daughter.water, 10_500);
    assert_eq!(daughter.minerals, 0);
    assert_eq!(daughter.queen_jelly, 21_000);
    assert_eq!(daughter.larvae, 3);
    assert_eq!(daughter.population, 1);
    assert_eq!(daughter.territory_radius, 30_000);
    assert_eq!(daughter.created_at, 2000);
    assert!(!daughter.ai_enabled);
    assert_eq!(daughter.queen_trait, Some(AntTrait::Matriarch));

    let site = Position { x: 131_400, y: -84_929, z: -5000 };
    let queen = world.ants.rows[6];
    assert_eq!(queen.id, 8);
    assert_eq!(queen.colony_id, 2);
    assert_eq!(queen.ant_type, AntType::Queen);
    assert_eq!(queen.position, site);
    assert_eq!((queen.health, queen.max_health), (200, 200));
    assert_eq!((queen.speed, queen.attack_damage), (500, 50));
    assert_eq!(queen.jelly_consumption_rate, 0);
    assert_eq!(queen.task, TaskType::Idle);
    assert_eq!(queen.trait_type, Some(AntTrait::Matriarch));
    assert_eq!(queen.maturation_time, None);
    assert_eq!(queen.last_fed_at, 2000);

    let throne = world.chambers.rows[1];
    assert_eq!((throne.id, throne.colony_id), (2, 2));
    assert_eq!(throne.chamber_type, ChamberType::ThroneRoom);
    assert_eq!(throne.position, site);
    assert_eq!(world.rng.state, 401415969518064047);
    assert!(is_well_formed(&world));
}

#[test]
fn the_trait_shapes_the_start() {
    let cases = [
        (Some(AntTrait::Fertile), 25_200, 2),
        (Some(AntTrait::Matriarch), 21_000, 3),
        (Some(AntTrait::Survivor), 31_500, 1),
        (Some(AntTrait::Swift), 21_000, 1),
        (None, 21_000, 1),
    ];
    for (trait_type, jelly, larvae) in cases {
        let mut world = world_with_young_queen();
        world.ants.rows[6].trait_type = trait_type;
        assert_eq!(nuptial_flight(&mut world, at(1, 2000), 7), Ok(2));
        let daughter = world.colonies.rows[1];
        assert_eq!(daughter.queen_jelly, jelly);
        assert_eq!(daughter.larvae, larvae);
        assert_eq!(daughter.food, 21_000);
        assert_eq!(daughter.water, 10_500);
        assert_eq!(daughter.queen_trait, trait_type);
        assert_eq!(world.ants.rows[6].trait_type, trait_type);
    }
}

#[test]
fn generations_compound() {
    let mut world = world_with_young_queen();
    world.players[0].generations_survived = 9;
    world.ants.rows[6].trait_type = Some(AntTrait::Fertile);
    assert_eq!(nuptial_flight(&mut world, at(1, 2000), 7), Ok(2));
    assert_eq!(world.players[0].generations_survived, 10);
    let daughter = world.colonies.rows[1];
    // 24 x 1.5, 20 x 1.5, 10 x 1.5
    assert_eq!(daughter.queen_jelly, 36_000);
    assert_eq!(daughter.food, 30_000);
    assert_eq!(daughter.water, 15_000);
    let mut world = world_with_young_queen();
    world.players[0].generations_survived = u32::MAX;
    world.players[0].queens_produced = u32::MAX;
    world.ants.rows[6].trait_type = Some(AntTrait::Survivor);
    assert_eq!(nuptial_flight(&mut world, at(1, 2000), 7), Ok(2));
    assert_eq!(world.players[0].generations_survived, u32::MAX);
    assert_eq!(world.players[0].queens_produced, u32::MAX);
    assert_eq!(world.colonies.rows[1].queen_jelly, 300 * (100 + 5 * 4_294_967_295u64));
}

#[test]
fn the_best_score_only_rises() {
    let mut world = world_with_young_queen();
    world.players[0].best_colony_score = 351;
    assert_eq!(nuptial_flight(&mut world, at(1, 2000), 7), Ok(2));
    assert_eq!(world.players[0].best_colony_score, 351);
    let mut world = world_with_young_queen();
    world.colonies.rows[0].minerals = 1999;
    world.players[0].best_colony_score = 353;
    assert_eq!(nuptial_flight(&mut world, at(1, 2000), 7), Ok(2));
    // 350 points and 3.998 for the minerals
    assert_eq!(world.players[0].best_colony_score, 353);
    let mut world = world_with_young_queen();
    world.colonies.rows[0].minerals = 2000;
    world.players[0].best_colony_score = 353;
    assert_eq!(nuptial_flight(&mut world, at(1, 2000), 7), Ok(2));
    assert_eq!(world.players[0].best_colony_score, 354);
}

#[test]
fn flights_are_guarded() {
    let mut world = world_with_young_queen();
    assert_eq!(nuptial_flight(&mut world, at(1, 2000), 2), Err(CommandError::InvalidState));
    assert_eq!(nuptial_flight(&mut world, at(1, 2000), 1), Err(CommandError::InvalidState));
    assert_eq!(nuptial_flight(&mut world, at(2, 2000), 7), Err(CommandError::Unauthorized));
    assert_eq!(
        nuptial_flight(&mut world, at(1, 2000), 99),
        Err(CommandError::NotFound(Entity::Ant))
    );
    world.chambers.next_id = u32::MAX;
    assert_eq!(nuptial_flight(&mut world, at(1, 2000), 7), Err(CommandError::Exhausted));
    world.chambers.next_id = 2;
    world.colonies.rows[0].player_id = who(5);
    assert_eq!(
        nuptial_flight(&mut world, at(5, 2000), 7),
        Err(CommandError::NotFound(Entity::Player))
    );
    assert_eq!(world.colonies.rows.len(), 1);
    assert_eq!(world.ants.rows.len(), 7);
    assert_eq!(world.players[0].queens_produced, 0);
    assert_eq!(world.players[0].generations_survived, 0);
    assert_eq!(world.rng.state, 483838003013946848);
}

#[test]
fn a_flight_keeps_the_count() {
    let mut world = world_with_young_queen();
    world.colonies.rows[0].population = 7;
    assert_eq!(nuptial_flight(&mut world, at(1, 2000), 7), Ok(2));
    for colony in world.colonies.rows.iter() {
        let living = world.ants.rows.iter().filter(|a| a.colony_id == colony.id).count();
        assert_eq!(colony.population as usize, living);
    }
}

#[test]
fn a_queen_without_a_trait_brings_no_bonus_and_passes_none_on() {
    let mut world = world_with_young_queen();
    world.ants.rows[6].trait_type = None;
    assert_eq!(nuptial_flight(&mut world, at(1, 2000), 7), Ok(2));
    let daughter = world.colonies.rows[1];
    // 20 units of jelly and one generation: 20 x 1.05
    assert_eq!(daughter.queen_jelly, 21_000);
    assert_eq!(daughter.larvae, 1);
    assert_eq!(daughter.queen_trait, None);
    let queen = world.ants.rows[6];
    assert_eq!(queen.ant_type, AntType::Queen);
    assert_eq!(queen.trait_type, None);
    assert!(is_well_formed(&world));
}

#[test]
fn a_daughter_colony_has_exactly_its_queen() {
    let mut world = world_with_young_queen();
    assert_eq!(nuptial_flight(&mut world, at(1, 2000), 7), Ok(2));
    let daughter = world.colonies.rows[1];
    let hers: Vec<_> = world.ants.rows.iter().filter(|a| a.colony_id == daughter.id).collect();
    assert_eq!(hers.len(), 1);
    assert_eq!(Some(hers[0].id), daughter.queen_id);
    assert_eq!(hers[0].ant_type, AntType::Queen);
    assert_eq!(daughter.population, 1);
}
