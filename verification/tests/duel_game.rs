use insect_colony_wars::duel::board::{GameStatus, TerrainType};
use insect_colony_wars::duel::commands::{
    attack_unit, create_game, create_player, end_turn, init, join_game, move_unit,
};
use insect_colony_wars::duel::game::{is_well_formed, ActionKind, Arena};
use insect_colony_wars::error::{CommandError, Entity};
use insect_colony_wars::identity::{Context, Identity};

fn who(n: u128) -> Identity {
    Identity { hi: 0, lo: n }
}

fn at(n: u128, time: u64) -> Context {
    Context { sender: who(n), timestamp: time }
}

/// Two players in a running game: unit 1 of player 1 at (0, 0), unit 2 of
/// player 2 at (4, 4), player 1 to move.
fn running_game() -> Arena {
    let mut arena = init();
    assert_eq!(create_player(&mut arena, at(1, 10), String::from("ann")), Ok(()));
    assert_eq!(create_player(&mut arena, at(2, 11), String::from("ben")), Ok(()));
    assert_eq!(create_game(&mut arena, at(1, 12)), Ok(1));
    assert_eq!(join_game(&mut arena, at(2, 13), 1), Ok(()));
    arena
}

#[test]
fn duel_player_is_created_once() {
    let mut arena = init();
    assert_eq!(create_player(&mut arena, at(1, 10), String::from("ann")), Ok(()));
    assert_eq!(arena.players.len(), 1);
    assert_eq!(arena.players[0].username, "ann");
    assert_eq!(arena.players[0].id, who(1));
    assert_eq!(arena.players[0].created_at, 10);
    assert_eq!(
        create_player(&mut arena, at(1, 20), String::from("again")),
        Err(CommandError::InvalidState)
    );
    assert_eq!(arena.players.len(), 1);
    assert_eq!(arena.players[0].username, "ann");
}

#[test]
fn create_game_needs_a_player() {
    let mut arena = init();
    assert_eq!(create_game(&mut arena, at(1, 5)), Err(CommandError::NotFound(Entity::Player)));
    assert!(arena.games.rows.is_empty());
    assert!(arena.boards.is_empty());
    assert!(arena.units.rows.is_empty());
}

#[test]
fn create_game_sets_up_board_and_unit() {
    let mut arena = init();
    create_player(&mut arena, at(1, 10), String::from("ann")).unwrap();
    assert_eq!(create_game(&mut arena, at(1, 12)), Ok(1));
    let game = arena.games.rows[0];
    assert_eq!(game.id, 1);
    assert_eq!(game.player1, who(1));
    assert_eq!(game.player2, None);
    assert_eq!(game.current_turn, who(1));
    assert_eq!(game.status, GameStatus::WaitingForPlayers);
    assert_eq!(game.winner, None);
    assert_eq!(game.created_at, 12);
    assert_eq!(arena.boards.len(), 1);
    assert_eq!(arena.boards[0].game_id, 1);
    assert_eq!(arena.boards[0].terrain_data, "PPPPPPFPFPPFMPPPFPFPPPPPP");
    let unit = arena.units.rows[0];
    assert_eq!((unit.id, unit.game_id, unit.owner), (1, 1, who(1)));
    assert_eq!((unit.x, unit.y, unit.hp), (0, 0, 100));
    assert_eq!((unit.movement_left, unit.has_attacked), (3, false));
    assert!(is_well_formed(&arena));
}

#[test]
fn a_second_game_gets_its_own_board() {
    let mut arena = init();
    create_player(&mut arena, at(1, 10), String::from("ann")).unwrap();
    assert_eq!(create_game(&mut arena, at(1, 12)), Ok(1));
    assert_eq!(create_game(&mut arena, at(1, 13)), Ok(2));
    assert_eq!(arena.boards.len(), 2);
    assert_eq!(arena.boards[1].game_id, 2);
    assert_eq!(arena.units.rows[1].game_id, 2);
}

#[test]
fn join_game_starts_the_game() {
    let arena = running_game();
    let game = arena.games.rows[0];
    assert_eq!(game.player2, Some(who(2)));
    assert_eq!(game.status, GameStatus::InProgress);
    assert_eq!(game.current_turn, who(1));
    let unit = arena.units.rows[1];
    assert_eq!((unit.id, unit.game_id, unit.owner), (2, 1, who(2)));
    assert_eq!((unit.x, unit.y, unit.hp, unit.movement_left), (4, 4, 100, 3));
}

#[test]
fn join_game_failures() {
    let mut arena = init();
    create_player(&mut arena, at(1, 10), String::from("ann")).unwrap();
    create_player(&mut arena, at(2, 11), String::from("ben")).unwrap();
    create_player(&mut arena, at(3, 11), String::from("cleo")).unwrap();
    create_game(&mut arena, at(1, 12)).unwrap();
    assert_eq!(join_game(&mut arena, at(9, 13), 1), Err(CommandError::NotFound(Entity::Player)));
    assert_eq!(join_game(&mut arena, at(2, 13), 7), Err(CommandError::NotFound(Entity::Game)));
    assert_eq!(join_game(&mut arena, at(1, 13), 1), Err(CommandError::InvalidState));
    assert_eq!(arena.units.rows.len(), 1);
    assert_eq!(join_game(&mut arena, at(2, 13), 1), Ok(()));
    assert_eq!(join_game(&mut arena, at(3, 14), 1), Err(CommandError::InvalidState));
    assert_eq!(arena.units.rows.len(), 2);
}

#[test]
fn move_unit_spends_movement_and_logs() {
    let mut arena = running_game();
    assert_eq!(move_unit(&mut arena, at(1, 20), 1, 1, 1, 1), Ok(()));
    let unit = arena.units.rows[0];
    assert_eq!((unit.x, unit.y, unit.movement_left), (1, 1, 1));
    assert_eq!(arena.actions.rows.len(), 1);
    let action = arena.actions.rows[0];
    assert_eq!((action.id, action.game_id, action.player, action.timestamp), (1, 1, who(1), 20));
    assert_eq!(action.action, ActionKind::Move { unit_id: 1, x: 1, y: 1 });
    assert_eq!(move_unit(&mut arena, at(1, 21), 1, 1, 1, 3), Err(CommandError::OutOfRange));
    assert_eq!(move_unit(&mut arena, at(1, 21), 1, 1, 2, 1), Ok(()));
    assert_eq!(arena.units.rows[0].movement_left, 0);
    assert!(is_well_formed(&arena));
}

#[test]
fn move_unit_failures_change_nothing() {
    let mut arena = running_game();
    assert_eq!(
        move_unit(&mut arena, at(1, 20), 9, 1, 1, 0),
        Err(CommandError::NotFound(Entity::Game))
    );
    assert_eq!(move_unit(&mut arena, at(2, 20), 1, 2, 4, 3), Err(CommandError::Unauthorized));
    assert_eq!(
        move_unit(&mut arena, at(1, 20), 1, 9, 1, 0),
        Err(CommandError::NotFound(Entity::Unit))
    );
    assert_eq!(move_unit(&mut arena, at(1, 20), 1, 2, 4, 3), Err(CommandError::Unauthorized));
    assert_eq!(move_unit(&mut arena, at(1, 20), 1, 1, 5, 0), Err(CommandError::OutOfRange));
    assert_eq!(move_unit(&mut arena, at(1, 20), 1, 1, 2, 2), Err(CommandError::OutOfRange));
    assert_eq!(move_unit(&mut arena, at(1, 20), 1, 1, 0, 0), Err(CommandError::InvalidState));
    let unit = arena.units.rows[0];
    assert_eq!((unit.x, unit.y, unit.movement_left), (0, 0, 3));
    assert!(arena.actions.rows.is_empty());
}

#[test]
fn move_unit_needs_a_running_game() {
    let mut arena = init();
    create_player(&mut arena, at(1, 10), String::from("ann")).unwrap();
    create_game(&mut arena, at(1, 12)).unwrap();
    assert_eq!(move_unit(&mut arena, at(1, 20), 1, 1, 1, 0), Err(CommandError::InvalidState));
}

#[test]
fn move_unit_rejects_a_unit_of_another_game() {
    let mut arena = running_game();
    create_game(&mut arena, at(1, 30)).unwrap();
    assert_eq!(move_unit(&mut arena, at(1, 31), 1, 3, 0, 1), Err(CommandError::InvalidState));
}

/// Brings unit 1 next to unit 2: unit 1 ends at (3, 4) after two turns.
fn close_in(arena: &mut Arena) {
    assert_eq!(move_unit(arena, at(1, 20), 1, 1, 3, 0), Ok(()));
    assert_eq!(end_turn(arena, at(1, 21), 1), Ok(()));
    assert_eq!(end_turn(arena, at(2, 22), 1), Ok(()));
    assert_eq!(move_unit(arena, at(1, 23), 1, 1, 3, 3), Ok(()));
    assert_eq!(end_turn(arena, at(1, 24), 1), Ok(()));
    assert_eq!(end_turn(arena, at(2, 25), 1), Ok(()));
    assert_eq!(move_unit(arena, at(1, 26), 1, 1, 3, 4), Ok(()));
}

#[test]
fn attack_on_plains_deals_thirty() {
    let mut arena = running_game();
    close_in(&mut arena);
    assert_eq!(attack_unit(&mut arena, at(1, 30), 1, 1, 2), Ok(()));
    assert_eq!(arena.units.rows[1].hp, 70);
    assert!(arena.units.rows[0].has_attacked);
    let action = arena.actions.rows[arena.actions.rows.len() - 1];
    assert_eq!(action.action, ActionKind::Attack { attacker_id: 1, target_id: 2, damage: 30 });
    assert_eq!(action.timestamp, 30);
    assert_eq!(arena.games.rows[0].status, GameStatus::InProgress);
    assert_eq!(attack_unit(&mut arena, at(1, 31), 1, 1, 2), Err(CommandError::InvalidState));
    assert_eq!(arena.units.rows[1].hp, 70);
}

#[test]
fn terrain_shields_the_target() {
    let mut arena = running_game();
    arena.units.rows[0].x = 2;
    arena.units.rows[0].y = 3;
    arena.units.rows[1].x = 2;
    arena.units.rows[1].y = 2;
    assert_eq!(attack_unit(&mut arena, at(1, 30), 1, 1, 2), Ok(()));
    assert_eq!(arena.units.rows[1].hp, 90);
    let mut arena = running_game();
    arena.units.rows[0].x = 0;
    arena.units.rows[0].y = 1;
    arena.units.rows[1].x = 1;
    arena.units.rows[1].y = 1;
    assert_eq!(attack_unit(&mut arena, at(1, 30), 1, 1, 2), Ok(()));
    assert_eq!(arena.units.rows[1].hp, 80);
    let action = arena.actions.rows[0];
    assert_eq!(action.action, ActionKind::Attack { attacker_id: 1, target_id: 2, damage: 20 });
}

#[test]
fn the_board_decides_the_terrain() {
    let mut arena = running_game();
    arena.boards[0].terrain_data = String::from("PPPPPPPPPPPPPPPPPPPPPPPPM");
    close_in(&mut arena);
    assert_eq!(attack_unit(&mut arena, at(1, 30), 1, 1, 2), Ok(()));
    assert_eq!(arena.units.rows[1].hp, 90);
    assert_eq!(TerrainType::Mountain, TerrainType::Mountain);
}

#[test]
fn a_killing_blow_ends_the_game() {
    let mut arena = running_game();
    close_in(&mut arena);
    arena.units.rows[1].hp = 25;
    assert_eq!(attack_unit(&mut arena, at(1, 30), 1, 1, 2), Ok(()));
    assert_eq!(arena.units.rows[1].hp, 0);
    assert_eq!(arena.games.rows[0].status, GameStatus::Finished);
    assert_eq!(arena.games.rows[0].winner, Some(who(1)));
    assert_eq!(end_turn(&mut arena, at(1, 31), 1), Err(CommandError::InvalidState));
}

#[test]
fn attack_failures_change_nothing() {
    let mut arena = running_game();
    assert_eq!(attack_unit(&mut arena, at(1, 30), 1, 1, 2), Err(CommandError::OutOfRange));
    assert_eq!(attack_unit(&mut arena, at(1, 30), 1, 2, 1), Err(CommandError::Unauthorized));
    assert_eq!(attack_unit(&mut arena, at(2, 30), 1, 2, 1), Err(CommandError::Unauthorized));
    assert_eq!(
        attack_unit(&mut arena, at(1, 30), 1, 1, 9),
        Err(CommandError::NotFound(Entity::Unit))
    );
    assert_eq!(
        attack_unit(&mut arena, at(1, 30), 1, 9, 2),
        Err(CommandError::NotFound(Entity::Unit))
    );
    close_in(&mut arena);
    arena.units.rows[1].hp = 0;
    assert_eq!(attack_unit(&mut arena, at(1, 30), 1, 1, 2), Err(CommandError::InvalidState));
    arena.units.rows[1].hp = 100;
    arena.boards.clear();
    assert_eq!(
        attack_unit(&mut arena, at(1, 30), 1, 1, 2),
        Err(CommandError::NotFound(Entity::Board))
    );
    assert_eq!(arena.units.rows[1].hp, 100);
    assert!(!arena.units.rows[0].has_attacked);
}

#[test]
fn end_turn_hands_over_and_refreshes() {
    let mut arena = running_game();
    assert_eq!(move_unit(&mut arena, at(1, 20), 1, 1, 1, 0), Ok(()));
    arena.units.rows[1].movement_left = 0;
    arena.units.rows[1].has_attacked = true;
    assert_eq!(end_turn(&mut arena, at(2, 21), 1), Err(CommandError::Unauthorized));
    assert_eq!(end_turn(&mut arena, at(1, 21), 1), Ok(()));
    assert_eq!(arena.games.rows[0].current_turn, who(2));
    assert_eq!(arena.units.rows[1].movement_left, 3);
    assert!(!arena.units.rows[1].has_attacked);
    assert_eq!(arena.units.rows[0].movement_left, 2);
    assert_eq!(end_turn(&mut arena, at(2, 22), 1), Ok(()));
    assert_eq!(arena.games.rows[0].current_turn, who(1));
    assert_eq!(arena.units.rows[0].movement_left, 3);
}

#[test]
fn a_tampered_arena_is_not_well_formed() {
    let mut arena = running_game();
    assert!(is_well_formed(&arena));
    arena.units.rows[0].x = 5;
    assert!(!is_well_formed(&arena));
    arena.units.rows[0].x = 0;
    arena.units.rows[1].id = 1;
    assert!(!is_well_formed(&arena));
}

#[test]
fn a_full_table_turns_commands_down() {
    let mut arena = running_game();
    arena.actions.next_id = u32::MAX;
    assert_eq!(move_unit(&mut arena, at(1, 20), 1, 1, 1, 0), Err(CommandError::Exhausted));
    assert_eq!((arena.units.rows[0].x, arena.units.rows[0].y), (0, 0));
    close_in_quietly(&mut arena);
    assert_eq!(attack_unit(&mut arena, at(1, 30), 1, 1, 2), Err(CommandError::Exhausted));
    assert_eq!(arena.units.rows[1].hp, 100);
    arena.units.next_id = u32::MAX;
    assert_eq!(create_game(&mut arena, at(1, 40)), Err(CommandError::Exhausted));
    assert_eq!(arena.games.rows.len(), 1);
    create_player(&mut arena, at(3, 41), String::from("cleo")).unwrap();
    arena.games.rows[0].status = GameStatus::WaitingForPlayers;
    assert_eq!(join_game(&mut arena, at(3, 42), 1), Err(CommandError::Exhausted));
    assert_eq!(arena.games.rows[0].status, GameStatus::WaitingForPlayers);
    arena.units.next_id = 3;
    arena.games.next_id = u32::MAX;
    assert_eq!(create_game(&mut arena, at(1, 43)), Err(CommandError::Exhausted));
    assert_eq!(arena.boards.len(), 1);
}

/// Puts unit 1 next to unit 2 without logging anything.
fn close_in_quietly(arena: &mut Arena) {
    arena.units.rows[0].x = 3;
    arena.units.rows[0].y = 4;
}

#[test]
fn end_turn_needs_an_opponent() {
    let mut arena = running_game();
    arena.games.rows[0].player2 = None;
    assert_eq!(end_turn(&mut arena, at(1, 20), 1), Err(CommandError::InvalidState));
    assert_eq!(arena.games.rows[0].current_turn, who(1));
    assert_eq!(end_turn(&mut arena, at(1, 20), 5), Err(CommandError::NotFound(Entity::Game)));
}
