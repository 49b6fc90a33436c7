use insect_colony_wars::colony::combat::attack_target;
use insect_colony_wars::colony::founding::{create_colony, create_player};
use insect_colony_wars::colony::types::Position;
use insect_colony_wars::colony::world::{init, is_well_formed, World};
use insect_colony_wars::error::{CommandError, Entity};
use insect_colony_wars::identity::{Context, Identity};

fn who(n: u128) -> Identity {
    Identity { hi: 0, lo: n }
}

fn at(n: u128, time: u64) -> Context {
    Context { sender: who(n), timestamp: time }
}

/// Alice's colony 1 around (0, 0) with creatures 1 to 6, Bob's colony 2
/// around (8, 0) with creatures 7 to 12. The queens are creatures 1 and 7.
fn neighbours() -> World {
    let mut world = init(42);
    create_player(&mut world, at(1, 100), String::from("alice")).unwrap();
    create_player(&mut world, at(2, 100), String::from("bob")).unwrap();
    create_colony(&mut world, at(1, 150), 0, 0).unwrap();
    create_colony(&mut world, at(2, 150), 8000, 0).unwrap();
    world
}

#[test]
fn an_attack_out_of_range_changes_nothing() {
    let mut world = neighbours();
    // Alice's queen at (0, 0), Bob's queen at (8, 0)
    let ants = world.ants.rows.clone();
    let colonies = world.colonies.rows.clone();
    assert_eq!(attack_target(&mut world, at(1, 200), 1, 7), Err(CommandError::OutOfRange));
    assert_eq!(world.ants.rows, ants);
    assert_eq!(world.colonies.rows, colonies);
    assert!(world.battles.rows.is_empty());
    assert_eq!(world.battles.next_id, 1);
}

#[test]
fn range_is_five_units_to_the_thousandth() {
    let mut world = neighbours();
    world.ants.rows[6].position = Position { x: 3000, y: 4000, z: -10_000 };
    assert_eq!(attack_target(&mut world, at(1, 200), 2, 7), Err(CommandError::OutOfRange));
    assert_eq!(attack_target(&mut world, at(1, 200), 1, 7), Ok(()));
    assert_eq!(world.ants.rows[6].health, 150);
    world.ants.rows[6].position = Position { x: 3000, y: 4001, z: -10_000 };
    assert_eq!(attack_target(&mut world, at(1, 201), 1, 7), Err(CommandError::OutOfRange));
    world.ants.rows[6].position = Position { x: 0, y: 0, z: -5000 };
    assert_eq!(attack_target(&mut world, at(1, 202), 1, 7), Ok(()));
    world.ants.rows[6].position = Position { x: 0, y: 0, z: -4999 };
    assert_eq!(attack_target(&mut world, at(1, 203), 1, 7), Err(CommandError::OutOfRange));
    assert_eq!(world.ants.rows[6].health, 100);
    assert_eq!(world.battles.rows.len(), 2);
}

#[test]
fn a_wound_is_stored_and_recorded() {
    let mut world = neighbours();
    // Alice's worker 6 at (4, 4) strikes Bob's worker 9, moved to (6, 2)
    world.ants.rows[8].position = Position { x: 6000, y: 2000, z: -10_000 };
    world.ants.rows[8].max_health = 60;
    world.ants.rows[8].health = 60;
    assert_eq!(attack_target(&mut world, at(1, 200), 6, 9), Ok(()));
    assert_eq!(world.ants.rows[8].health, 55);
    assert_eq!(world.ants.rows.len(), 12);
    assert_eq!(world.colonies.rows[1].population, 1);
    assert_eq!(world.battles.rows.len(), 1);
    let battle = world.battles.rows[0];
    assert_eq!(battle.id, 1);
    assert_eq!((battle.attacker_ant_id, battle.defender_ant_id), (6, 9));
    assert_eq!(battle.position, Position { x: 6000, y: 2000, z: -10_000 });
    assert_eq!(battle.damage_dealt, 5);
    assert_eq!(battle.timestamp, 200);
    assert!(is_well_formed(&world));
}

#[test]
fn a_kill_deletes_the_target_and_lowers_the_population() {
    let mut world = neighbours();
    world.colonies.rows[1].population = 6;
    world.ants.rows[8].position = Position { x: 1000, y: 0, z: -10_000 };
    assert_eq!(attack_target(&mut world, at(1, 200), 1, 9), Ok(()));
    assert_eq!(world.ants.rows.len(), 11);
    assert!(world.ants.rows.iter().all(|a| a.id != 9));
    assert_eq!(world.colonies.rows[1].population, 5);
    assert_eq!(world.colonies.rows[0].population, 1);
    assert_eq!(world.battles.rows.len(), 1);
    assert_eq!(world.battles.rows[0].damage_dealt, 50);
    assert_eq!(world.battles.rows[0].defender_ant_id, 9);
    let living = world.ants.rows.iter().filter(|a| a.colony_id == 2).count();
    assert_eq!(world.colonies.rows[1].population as usize, living);
    assert_eq!(
        attack_target(&mut world, at(1, 201), 1, 9),
        Err(CommandError::NotFound(Entity::Ant))
    );
    assert!(is_well_formed(&world));
}

#[test]
fn the_population_never_drops_below_zero() {
    let mut world = neighbours();
    // a standard colony records its queen only
    assert_eq!(world.colonies.rows[1].population, 1);
    world.ants.rows[8].position = Position { x: 1000, y: 0, z: -10_000 };
    world.ants.rows[9].position = Position { x: 1000, y: 0, z: -10_000 };
    assert_eq!(attack_target(&mut world, at(1, 200), 1, 9), Ok(()));
    assert_eq!(world.colonies.rows[1].population, 0);
    assert_eq!(attack_target(&mut world, at(1, 201), 1, 10), Ok(()));
    assert_eq!(world.colonies.rows[1].population, 0);
    assert_eq!(world.ants.rows.len(), 10);
    assert_eq!(world.battles.rows.len(), 2);
    assert!(is_well_formed(&world));
}

#[test]
fn an_exact_blow_kills() {
    let mut world = neighbours();
    world.ants.rows[8].position = Position { x: 0, y: 0, z: -10_000 };
    world.ants.rows[8].health = 5;
    assert_eq!(attack_target(&mut world, at(1, 200), 4, 9), Ok(()));
    assert!(world.ants.rows.iter().all(|a| a.id != 9));
}

#[test]
fn attacks_are_guarded() {
    let mut world = neighbours();
    assert_eq!(
        attack_target(&mut world, at(1, 200), 99, 7),
        Err(CommandError::NotFound(Entity::Ant))
    );
    assert_eq!(
        attack_target(&mut world, at(1, 200), 1, 99),
        Err(CommandError::NotFound(Entity::Ant))
    );
    assert_eq!(attack_target(&mut world, at(1, 200), 7, 1), Err(CommandError::Unauthorized));
    assert_eq!(attack_target(&mut world, at(3, 200), 1, 2), Err(CommandError::Unauthorized));
    world.battles.next_id = u32::MAX;
    assert_eq!(attack_target(&mut world, at(1, 200), 1, 4), Err(CommandError::Exhausted));
    assert_eq!(world.ants.rows.len(), 12);
    assert!(world.battles.rows.is_empty());
}
