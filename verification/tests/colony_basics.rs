use insect_colony_wars::colony::economy::{
    apply_cost, can_afford, can_afford_ant, capacity_of_chamber, charge_for_ant, credit,
    price_of_ant, price_of_chamber, score_of, shortage, travel_cost, Cost,
};
use insect_colony_wars::colony::founding::{create_colony, create_player};
use insect_colony_wars::colony::geometry::{
    distance_3d, distance_sq, integer_sqrt, is_closer_than, is_within, offset_by,
};
use insect_colony_wars::colony::registry::{
    deadline_for, generate_random_trait_for_type, get_ant_stats, get_jelly_consumption_rate,
    make_ant,
};
use insect_colony_wars::colony::rng::Rng;
use insect_colony_wars::colony::types::{
    AntTrait, AntType, ChamberType, Colony, Position, TaskType,
};
use insect_colony_wars::colony::world::{count_creatures, init};
use insect_colony_wars::error::Shortage;
use insect_colony_wars::identity::{Context, Identity};
use insect_colony_wars::table::Table;

fn point(x: i32, y: i32, z: i32) -> Position {
    Position { x, y, z }
}

fn standard_colony() -> Colony {
    let mut world = init(1);
    let ctx = Context { sender: Identity { hi: 3, lo: 4 }, timestamp: 9 };
    create_player(&mut world, ctx, String::from("carol")).unwrap();
    create_colony(&mut world, ctx, 0, 0).unwrap();
    world.colonies.rows[0]
}

#[test]
fn square_roots_round_down() {
    assert_eq!(integer_sqrt(0), 0);
    assert_eq!(integer_sqrt(1), 1);
    assert_eq!(integer_sqrt(3), 1);
    assert_eq!(integer_sqrt(4), 2);
    assert_eq!(integer_sqrt(24), 4);
    assert_eq!(integer_sqrt(25), 5);
    assert_eq!(integer_sqrt(1_000_000_000_000), 1_000_000);
    assert_eq!(integer_sqrt(999_999_999_999), 999_999);
    assert_eq!(integer_sqrt(3 * 4_294_967_295u128 * 4_294_967_295u128), 7_439_101_571);
}

#[test]
fn distances_are_exact() {
    let origin = point(0, 0, 0);
    assert_eq!(distance_sq(origin, point(3, 4, 12)), 169);
    assert_eq!(distance_3d(origin, point(3, 4, 12)), 13);
    assert_eq!(distance_3d(point(3, 4, 12), origin), 13);
    assert_eq!(distance_3d(origin, point(1000, 1000, 0)), 1414);
    assert_eq!(distance_3d(point(-5, 7, 9), point(-5, 7, 9)), 0);
    assert_eq!(
        distance_3d(point(i32::MIN, i32::MIN, i32::MIN), point(i32::MAX, i32::MAX, i32::MAX)),
        7_439_101_571
    );
    assert_eq!(
        distance_sq(point(i32::MIN, 0, 0), point(i32::MAX, 0, 0)),
        4_294_967_295u128 * 4_294_967_295u128
    );
}

#[test]
fn range_tests_are_exact() {
    let origin = point(0, 0, 0);
    assert!(is_within(origin, point(3000, 4000, 0), 5000));
    assert!(!is_within(origin, point(3000, 4000, 1), 5000));
    assert!(!is_closer_than(origin, point(3000, 4000, 0), 5000));
    assert!(is_closer_than(origin, point(3000, 3999, 0), 5000));
    assert!(is_within(origin, origin, 0));
    assert!(!is_closer_than(origin, origin, 0));
    assert!(is_within(point(i32::MIN, 0, 0), point(i32::MAX, 0, 0), u32::MAX));
    assert!(!is_within(point(i32::MIN, 1, 0), point(i32::MAX, 0, 0), u32::MAX));
}

#[test]
fn offsets_stop_at_the_edge() {
    assert_eq!(offset_by(point(1, 2, 3), 10, -20, 30), point(11, -18, 33));
    assert_eq!(offset_by(point(i32::MAX, i32::MIN, 0), 1, -1, 0), point(i32::MAX, i32::MIN, 0));
    assert_eq!(
        offset_by(point(i32::MAX - 5, i32::MIN + 5, 0), 5, -5, i32::MIN),
        point(i32::MAX, i32::MIN, i32::MIN)
    );
}

#[test]
fn the_generator_replays() {
    let mut rng = Rng::new(42);
    assert_eq!(rng.next(), 2_440_530_669);
    assert_eq!(rng.state, 10_481_999_410_520_546_993);
    assert_eq!(rng.next(), 968_358_053);
    assert_eq!(rng.next(), 1_773_127_077);
    let mut again = Rng::new(42);
    assert_eq!(again.next(), 2_440_530_669);
    let mut other = Rng::new(7);
    assert_eq!(other.next(), 2_118_330_556);
    assert_eq!(other.state, 9_098_160_460_397_411_210);
    let mut last = Rng::new(u64::MAX);
    last.next();
    assert_eq!(last.state, 1442695040888963407u64.wrapping_sub(6364136223846793005));
}

#[test]
fn traits_come_from_the_pool_of_the_type() {
    // seed 42 draws 2440530669, which reduces to 69
    let cases = [
        (AntType::Worker, Some(AntTrait::Pheromone)),
        (AntType::YoungQueen, Some(AntTrait::Fertile)),
        (AntType::Scout, Some(AntTrait::Scout)),
        (AntType::Soldier, Some(AntTrait::Venomous)),
        (AntType::Major, Some(AntTrait::Venomous)),
        (AntType::Queen, None),
        (AntType::RoyalWorker, None),
    ];
    for (ant_type, expected) in cases {
        let mut rng = Rng::new(42);
        assert_eq!(generate_random_trait_for_type(&mut rng, ant_type), expected);
        assert_eq!(rng.state, 10_481_999_410_520_546_993);
    }
    let mut seen = Vec::new();
    let mut rng = Rng::new(5);
    for _ in 0..200 {
        let picked = generate_random_trait_for_type(&mut rng, AntType::Worker).unwrap();
        if !seen.contains(&picked) {
            seen.push(picked);
        }
    }
    assert_eq!(seen.len(), 5);
    let pool = [
        AntTrait::Strong,
        AntTrait::Swift,
        AntTrait::Efficient,
        AntTrait::Industrious,
        AntTrait::Pheromone,
    ];
    assert!(seen.iter().all(|t| pool.contains(t)));
}

#[test]
fn each_type_has_its_attributes() {
    assert_eq!(get_ant_stats(AntType::Queen), (200, 500, 50));
    assert_eq!(get_ant_stats(AntType::YoungQueen), (150, 4000, 15));
    assert_eq!(get_ant_stats(AntType::Worker), (50, 4000, 5));
    assert_eq!(get_ant_stats(AntType::RoyalWorker), (40, 500, 0));
    assert_eq!(get_ant_stats(AntType::Soldier), (100, 3000, 20));
    assert_eq!(get_ant_stats(AntType::Scout), (30, 6000, 10));
    assert_eq!(get_ant_stats(AntType::Major), (150, 2000, 30));
    assert_eq!(get_jelly_consumption_rate(AntType::Queen), 0);
    assert_eq!(get_jelly_consumption_rate(AntType::YoungQueen), 100);
    assert_eq!(get_jelly_consumption_rate(AntType::Worker), 100);
    assert_eq!(get_jelly_consumption_rate(AntType::RoyalWorker), 50);
    assert_eq!(get_jelly_consumption_rate(AntType::Soldier), 150);
    assert_eq!(get_jelly_consumption_rate(AntType::Scout), 80);
    assert_eq!(get_jelly_consumption_rate(AntType::Major), 200);
    assert_eq!(deadline_for(AntType::YoungQueen, 7), Some(300_007));
    assert_eq!(deadline_for(AntType::Worker, 7), None);
    let ant = make_ant(
        3,
        4,
        AntType::Major,
        point(1, 2, 3),
        TaskType::Digging,
        Some(point(4, 5, 6)),
        Some(AntTrait::Armored),
        None,
        77,
    );
    assert_eq!((ant.id, ant.colony_id, ant.ant_type), (3, 4, AntType::Major));
    assert_eq!((ant.health, ant.max_health, ant.speed, ant.attack_damage), (150, 150, 2000, 30));
    assert_eq!(ant.jelly_consumption_rate, 200);
    assert_eq!((ant.task, ant.target), (TaskType::Digging, Some(point(4, 5, 6))));
    assert_eq!((ant.trait_type, ant.last_fed_at), (Some(AntTrait::Armored), 77));
    assert_eq!(ant.carrying, None);
}

#[test]
fn price_lists() {
    let worker = price_of_ant(AntType::Worker).unwrap();
    assert_eq!((worker.food, worker.water, worker.minerals), (10_000, 0, 0));
    assert_eq!((worker.larvae, worker.jelly), (1, 2000));
    let major = price_of_ant(AntType::Major).unwrap();
    assert_eq!((major.food, major.minerals, major.larvae, major.jelly), (50_000, 10_000, 2, 5000));
    let young = price_of_ant(AntType::YoungQueen).unwrap();
    assert_eq!((young.food, young.water, young.larvae, young.jelly), (50_000, 20_000, 1, 50_000));
    assert_eq!(price_of_ant(AntType::Scout).unwrap().jelly, 2500);
    assert_eq!(price_of_ant(AntType::Soldier).unwrap().jelly, 3000);
    assert_eq!(price_of_ant(AntType::RoyalWorker).unwrap().food, 20_000);
    assert_eq!(price_of_ant(AntType::Queen), None);
    let burrow = price_of_chamber(ChamberType::Burrow);
    assert_eq!((burrow.food, burrow.minerals, burrow.jelly), (20_000, 5000, 10_000));
    assert_eq!(price_of_chamber(ChamberType::Nursery).jelly, 0);
    assert_eq!(capacity_of_chamber(ChamberType::Nursery), 20);
    assert_eq!(capacity_of_chamber(ChamberType::Storage), 100);
    assert_eq!(capacity_of_chamber(ChamberType::Barracks), 50);
    assert_eq!(capacity_of_chamber(ChamberType::ThroneRoom), 1);
    assert_eq!(capacity_of_chamber(ChamberType::Burrow), 0);
}

#[test]
fn affordability_looks_at_every_entry() {
    let mut colony = standard_colony();
    assert!(can_afford_ant(&colony, AntType::Worker));
    assert!(can_afford_ant(&colony, AntType::YoungQueen));
    assert!(!can_afford_ant(&colony, AntType::Major));
    assert!(!can_afford_ant(&colony, AntType::Queen));
    colony.queen_jelly = u64::MAX;
    colony.food = u64::MAX;
    colony.minerals = u64::MAX;
    assert!(!can_afford_ant(&colony, AntType::Queen));
    assert!(can_afford_ant(&colony, AntType::Major));
    colony.larvae = 1;
    assert!(!can_afford_ant(&colony, AntType::Major));
    let cost = Cost { food: 1, water: 2, minerals: 3, larvae: 1, jelly: 4 };
    assert!(can_afford(&colony, &cost));
    assert_eq!(shortage(&colony, &cost), None);
    colony.water = 1;
    assert!(!can_afford(&colony, &cost));
    assert_eq!(shortage(&colony, &cost), Some(Shortage::Water));
    colony.larvae = 0;
    assert_eq!(shortage(&colony, &cost), Some(Shortage::Larvae));
}

#[test]
fn paying_takes_exactly_the_cost() {
    let mut colony = standard_colony();
    let before = colony;
    let cost = Cost { food: 1, water: 2, minerals: 0, larvae: 5, jelly: 100_000 };
    apply_cost(&mut colony, &cost);
    assert_eq!(colony.food, 99_999);
    assert_eq!(colony.water, 49_998);
    assert_eq!(colony.minerals, 0);
    assert_eq!(colony.larvae, 0);
    assert_eq!(colony.queen_jelly, 0);
    assert_eq!(colony.population, before.population);
    assert_eq!(colony.id, before.id);
    assert_eq!(charge_for_ant(&before, AntType::Worker).jelly, 1000);
    assert_eq!(charge_for_ant(&before, AntType::Worker).food, 10_000);
    assert_eq!(charge_for_ant(&before, AntType::Soldier).jelly, 3000);
    let mut grown = before;
    grown.population = 2;
    assert_eq!(charge_for_ant(&grown, AntType::Worker).jelly, 2000);
}

#[test]
fn scores_and_travel() {
    let mut colony = standard_colony();
    // 100 + 50 + 0 + 500 + 10
    assert_eq!(score_of(&colony), 660);
    colony.minerals = 1500;
    colony.population = 3;
    assert_eq!(score_of(&colony), 683);
    colony.food = u64::MAX;
    colony.water = u64::MAX;
    colony.minerals = u64::MAX;
    colony.queen_jelly = u64::MAX;
    colony.population = u32::MAX;
    assert_eq!(score_of(&colony), 166_020_739_613_058_914);
    assert_eq!(travel_cost(point(0, 0, 0), point(1_000_000, 0, 0)), 10_000);
    assert_eq!(travel_cost(point(0, 0, 0), point(99, 0, 0)), 0);
    assert_eq!(travel_cost(point(0, 0, 0), point(100, 0, 0)), 1);
    assert_eq!(travel_cost(point(-4000, -4000, 0), point(0, 0, 0)), 56);
    assert_eq!(credit(5, 6), 11);
    assert_eq!(credit(u64::MAX - 1, 6), u64::MAX);
}

#[test]
fn creatures_are_counted_by_colony() {
    let mut world = init(1);
    let ctx = Context { sender: Identity { hi: 3, lo: 4 }, timestamp: 9 };
    create_player(&mut world, ctx, String::from("carol")).unwrap();
    create_colony(&mut world, ctx, 0, 0).unwrap();
    create_colony(&mut world, ctx, 50_000, 0).unwrap();
    assert_eq!(count_creatures(&world, 1), 6);
    assert_eq!(count_creatures(&world, 2), 6);
    assert_eq!(count_creatures(&world, 3), 0);
    world.ants.rows[3].colony_id = 2;
    assert_eq!(count_creatures(&world, 1), 5);
    assert_eq!(count_creatures(&world, 2), 7);
}

#[test]
fn tables_hand_out_growing_identifiers() {
    let mut world = init(1);
    let table = &mut world.resource_nodes;
    assert!(table.is_well_formed());
    assert!(table.has_room());
    assert_eq!(table.find(3), Some(2));
    assert_eq!(table.find(5), None);
    let removed = table.remove(1);
    assert_eq!(removed.id, 2);
    assert_eq!(table.find(3), Some(1));
    assert_eq!(table.find(2), None);
    assert_eq!(table.next_id, 5);
    let mut node = removed;
    node.id = 5;
    table.insert(node);
    assert_eq!(table.next_id, 6);
    assert_eq!(table.find(5), Some(3));
    let mut changed = table.rows[0];
    changed.amount = 12;
    table.replace(0, changed);
    assert_eq!(table.rows[0].amount, 12);
    assert!(table.is_well_formed());
    table.next_id = u32::MAX;
    assert!(!table.has_room());
    let empty: Table<insect_colony_wars::colony::types::Tunnel> = Table::new();
    assert!(empty.rows.is_empty());
    assert_eq!(empty.next_id, 1);
}
