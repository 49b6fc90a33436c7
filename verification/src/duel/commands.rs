//! The commands of the duel. Each is proved to leave exactly the arena its
//! contract names.

use vstd::prelude::*;
use crate::duel::board::{
    calculate_distance, deserialize_board, encode_rows, generate_random_board,
    get_terrain_defense, is_adjacent, is_full_board, serialize_board, terrain_char, GameStatus,
    TerrainType,
};
use crate::duel::game::{
    attack_unit_check, attack_unit_next, create_game_check, create_game_next, create_player_check,
    create_player_next, end_turn_check, end_turn_next, join_game_check, join_game_next,
    move_unit_check, move_unit_next, refreshed, standard_board_text, unit_blocks, ActionKind,
    Arena, Board, Game, GameAction, Player, Unit, BASE_DAMAGE, UNIT_HP, UNIT_MOVEMENT,
};
use crate::error::{CommandError, Entity};
use crate::identity::{Context, Identity};
use crate::table::{Table, TableView};

verus! {

/// The text of a full board holds the letter of cell (`k / 5`, `k % 5`) at
/// offset `k`.
pub proof fn lemma_encode_rows(board: Seq<Vec<TerrainType>>, n: nat)
    requires
        is_full_board(board),
        n <= 5,
    ensures
        encode_rows(board, n).len() == 5 * n,
        forall|k: int|
            0 <= k < 5 * n ==> #[trigger] encode_rows(board, n)[k] == terrain_char(
                board[k / 5][k % 5],
            ),
    decreases n,
{
    if n > 0 {
        lemma_encode_rows(board, (n - 1) as nat);
        assert(board[n - 1].len() == 5);
    }
}

fn player_exists(arena: &Arena, id: Identity) -> (exists: bool)
    ensures
        exists == arena@.has_player(id),
{
    let mut i: usize = 0;
    while i < arena.players.len()
        invariant
            i <= arena.players.len(),
            forall|k: int| 0 <= k < i ==> (#[trigger] arena@.players[k]).id != id,
        decreases arena.players.len() - i,
    {
        if arena.players[i].id == id {
            assert(arena@.players[i as int].id == id);
            return true;
        }
        i += 1;
    }
    false
}

fn find_board(arena: &Arena, game_id: u32) -> (found: Option<usize>)
    requires
        arena@.wf(),
    ensures
        found is Some == arena@.has_board(game_id),
        found matches Some(i) ==> i < arena.boards.len() && arena.boards[i as int]@
            == arena@.board(game_id),
{
    let mut i: usize = 0;
    while i < arena.boards.len()
        invariant
            i <= arena.boards.len(),
            arena@.wf(),
            forall|k: int| 0 <= k < i ==> (#[trigger] arena@.boards[k]).game_id != game_id,
        decreases arena.boards.len() - i,
    {
        if arena.boards[i].game_id == game_id {
            proof {
                let s = arena@;
                let j = choose|j: int|
                    0 <= j < s.boards.len() && (#[trigger] s.boards[j]).game_id == game_id;
                if j < i {
                    assert(s.boards[j].game_id < s.boards[i as int].game_id);
                } else if i < j {
                    assert(s.boards[i as int].game_id < s.boards[j].game_id);
                }
            }
            return Some(i);
        }
        i += 1;
    }
    None
}

fn is_occupied(arena: &Arena, game_id: u32, x: u8, y: u8) -> (occupied: bool)
    ensures
        occupied == arena@.occupied(game_id, x, y),
{
    let mut i: usize = 0;
    while i < arena.units.rows.len()
        invariant
            i <= arena.units.rows.len(),
            forall|k: int|
                0 <= k < i ==> !unit_blocks(#[trigger] arena@.units.rows[k], game_id, x, y),
        decreases arena.units.rows.len() - i,
    {
        let unit = &arena.units.rows[i];
        if unit.game_id == game_id && unit.x == x && unit.y == y && unit.hp > 0 {
            assert(unit_blocks(arena@.units.rows[i as int], game_id, x, y));
            return true;
        }
        i += 1;
    }
    false
}

fn check_turn(arena: &Arena, ctx: Context, game_id: u32) -> (checked: Result<usize, CommandError>)
    requires
        arena@.wf(),
    ensures
        match arena@.turn_check(ctx, game_id) {
            Some(e) => checked == Err::<usize, CommandError>(e),
            None => checked matches Ok(i) && i < arena.games.rows.len() && i
                == arena@.games.index_of(game_id) && arena.games.rows[i as int]
                == arena@.games.get(game_id),
        },
{
    match arena.games.find(game_id) {
        None => Err(CommandError::NotFound(Entity::Game)),
        Some(i) => {
            let game = &arena.games.rows[i];
            if game.status != GameStatus::InProgress {
                Err(CommandError::InvalidState)
            } else if game.current_turn != ctx.sender {
                Err(CommandError::Unauthorized)
            } else {
                Ok(i)
            }
        },
    }
}

/// An arena with no players and no games.
pub fn init() -> (arena: Arena)
    ensures
        arena@.wf(),
        arena@.players.len() == 0,
        arena@.boards.len() == 0,
        arena@.games == TableView::<Game>::empty(),
        arena@.units == TableView::<Unit>::empty(),
        arena@.actions == TableView::<GameAction>::empty(),
{
    Arena {
        players: Vec::new(),
        games: Table::new(),
        boards: Vec::new(),
        units: Table::new(),
        actions: Table::new(),
    }
}

/// Registers the caller as a player, unless the caller already is one.
pub fn create_player(arena: &mut Arena, ctx: Context, username: String) -> (done: Result<
    (),
    CommandError,
>)
    requires
        old(arena)@.wf(),
    ensures
        final(arena)@.wf(),
        match create_player_check(old(arena)@, ctx) {
            Some(e) => done == Err::<(), CommandError>(e) && final(arena)@ == old(arena)@,
            None => done == Ok::<(), CommandError>(()) && final(arena)@ == create_player_next(
                old(arena)@,
                ctx,
                username@,
            ),
        },
{
    if player_exists(arena, ctx.sender) {
        return Err(CommandError::InvalidState);
    }
    let ghost before = arena@;
    arena.players.push(Player { id: ctx.sender, username, created_at: ctx.timestamp });
    assert(arena@.boards =~= before.boards);
    Ok(())
}

/// Opens a game with the caller as first player: a board with the standard
/// layout and the caller's unit in the corner (0, 0). Returns the game's
/// identifier.
pub fn create_game(arena: &mut Arena, ctx: Context) -> (done: Result<u32, CommandError>)
    requires
        old(arena)@.wf(),
    ensures
        final(arena)@.wf(),
        match create_game_check(old(arena)@, ctx) {
            Some(e) => done == Err::<u32, CommandError>(e) && final(arena)@ == old(arena)@,
            None => done == Ok::<u32, CommandError>(old(arena)@.games.next_id) && final(arena)@
                == create_game_next(old(arena)@, ctx),
        },
{
    if !player_exists(arena, ctx.sender) {
        return Err(CommandError::NotFound(Entity::Player));
    }
    if !arena.games.has_room() || !arena.units.has_room() {
        return Err(CommandError::Exhausted);
    }
    let ghost before = arena@;
    let game_id = arena.games.next_id;
    arena.games.insert(
        Game {
            id: game_id,
            player1: ctx.sender,
            player2: None,
            current_turn: ctx.sender,
            status: GameStatus::WaitingForPlayers,
            winner: None,
            created_at: ctx.timestamp,
        },
    );
    let layout = generate_random_board();
    let text = serialize_board(&layout);
    proof {
        lemma_encode_rows(layout@, 5);
        assert(text@ =~= standard_board_text());
    }
    arena.boards.push(Board { game_id, terrain_data: text });
    let unit_id = arena.units.next_id;
    arena.units.insert(
        Unit {
            id: unit_id,
            game_id,
            owner: ctx.sender,
            x: 0,
            y: 0,
            hp: UNIT_HP,
            movement_left: UNIT_MOVEMENT,
            has_attacked: false,
        },
    );
    proof {
        let after = create_game_next(before, ctx);
        assert(arena@ == after);
    }
    Ok(game_id)
}

/// Joins a waiting game as second player and starts it; the caller's unit
/// enters in the corner (4, 4).
pub fn join_game(arena: &mut Arena, ctx: Context, game_id: u32) -> (done: Result<
    (),
    CommandError,
>)
    requires
        old(arena)@.wf(),
    ensures
        final(arena)@.wf(),
        match join_game_check(old(arena)@, ctx, game_id) {
            Some(e) => done == Err::<(), CommandError>(e) && final(arena)@ == old(arena)@,
            None => done == Ok::<(), CommandError>(()) && final(arena)@ == join_game_next(
                old(arena)@,
                ctx,
                game_id,
            ),
        },
{
    if !player_exists(arena, ctx.sender) {
        return Err(CommandError::NotFound(Entity::Player));
    }
    let gi = match arena.games.find(game_id) {
        Some(i) => i,
        None => {
            return Err(CommandError::NotFound(Entity::Game));
        },
    };
    let game = arena.games.rows[gi];
    if game.status != GameStatus::WaitingForPlayers {
        return Err(CommandError::InvalidState);
    }
    if game.player1 == ctx.sender {
        return Err(CommandError::InvalidState);
    }
    if !arena.units.has_room() {
        return Err(CommandError::Exhausted);
    }
    let ghost before = arena@;
    arena.games.replace(
        gi,
        Game { player2: Some(ctx.sender), status: GameStatus::InProgress, ..game },
    );
    let unit_id = arena.units.next_id;
    arena.units.insert(
        Unit {
            id: unit_id,
            game_id,
            owner: ctx.sender,
            x: 4,
            y: 4,
            hp: UNIT_HP,
            movement_left: UNIT_MOVEMENT,
            has_attacked: false,
        },
    );
    assert(arena@.boards == before.boards);
    Ok(())
}

/// Moves the caller's unit to cell (`new_x`, `new_y`) for one movement point
/// per step, and logs the move.
pub fn move_unit(
    arena: &mut Arena,
    ctx: Context,
    game_id: u32,
    unit_id: u32,
    new_x: u8,
    new_y: u8,
) -> (done: Result<(), CommandError>)
    requires
        old(arena)@.wf(),
    ensures
        final(arena)@.wf(),
        match move_unit_check(old(arena)@, ctx, game_id, unit_id, new_x, new_y) {
            Some(e) => done == Err::<(), CommandError>(e) && final(arena)@ == old(arena)@,
            None => done == Ok::<(), CommandError>(()) && final(arena)@ == move_unit_next(
                old(arena)@,
                ctx,
                game_id,
                unit_id,
                new_x,
                new_y,
            ),
        },
{
    match check_turn(arena, ctx, game_id) {
        Ok(_) => {},
        Err(e) => {
            return Err(e);
        },
    }
    let ui = match arena.units.find(unit_id) {
        Some(i) => i,
        None => {
            return Err(CommandError::NotFound(Entity::Unit));
        },
    };
    let unit = arena.units.rows[ui];
    if unit.owner != ctx.sender {
        return Err(CommandError::Unauthorized);
    }
    if unit.game_id != game_id {
        return Err(CommandError::InvalidState);
    }
    if new_x >= 5 || new_y >= 5 {
        return Err(CommandError::OutOfRange);
    }
    let distance = calculate_distance(unit.x, unit.y, new_x, new_y);
    if distance > unit.movement_left {
        return Err(CommandError::OutOfRange);
    }
    if is_occupied(arena, game_id, new_x, new_y) {
        return Err(CommandError::InvalidState);
    }
    if !arena.actions.has_room() {
        return Err(CommandError::Exhausted);
    }
    arena.units.replace(
        ui,
        Unit { x: new_x, y: new_y, movement_left: unit.movement_left - distance, ..unit },
    );
    let action_id = arena.actions.next_id;
    arena.actions.insert(
        GameAction {
            id: action_id,
            game_id,
            player: ctx.sender,
            action: ActionKind::Move { unit_id, x: new_x, y: new_y },
            timestamp: ctx.timestamp,
        },
    );
    assert(arena@.boards == old(arena)@.boards);
    Ok(())
}

/// Attacks an adjacent unit: the target loses 30 hit points, less 10 per
/// defense level of its terrain, never dropping below zero. The attack is
/// logged, and a target left with no hit points ends the game in the
/// caller's favour.
pub fn attack_unit(
    arena: &mut Arena,
    ctx: Context,
    game_id: u32,
    attacker_id: u32,
    target_id: u32,
) -> (done: Result<(), CommandError>)
    requires
        old(arena)@.wf(),
    ensures
        final(arena)@.wf(),
        match attack_unit_check(old(arena)@, ctx, game_id, attacker_id, target_id) {
            Some(e) => done == Err::<(), CommandError>(e) && final(arena)@ == old(arena)@,
            None => done == Ok::<(), CommandError>(()) && final(arena)@ == attack_unit_next(
                old(arena)@,
                ctx,
                game_id,
                attacker_id,
                target_id,
            ),
        },
{
    let gi = match check_turn(arena, ctx, game_id) {
        Ok(i) => i,
        Err(e) => {
            return Err(e);
        },
    };
    let ai = match arena.units.find(attacker_id) {
        Some(i) => i,
        None => {
            return Err(CommandError::NotFound(Entity::Unit));
        },
    };
    let ti = match arena.units.find(target_id) {
        Some(i) => i,
        None => {
            return Err(CommandError::NotFound(Entity::Unit));
        },
    };
    let attacker = arena.units.rows[ai];
    let target = arena.units.rows[ti];
    if attacker.owner != ctx.sender {
        return Err(CommandError::Unauthorized);
    }
    if attacker.game_id != game_id || target.game_id != game_id {
        return Err(CommandError::InvalidState);
    }
    if attacker.has_attacked {
        return Err(CommandError::InvalidState);
    }
    if target.hp <= 0 {
        return Err(CommandError::InvalidState);
    }
    if !is_adjacent(attacker.x, attacker.y, target.x, target.y) {
        return Err(CommandError::OutOfRange);
    }
    let bi = match find_board(arena, game_id) {
        Some(i) => i,
        None => {
            return Err(CommandError::NotFound(Entity::Board));
        },
    };
    if !arena.actions.has_room() {
        return Err(CommandError::Exhausted);
    }
    let terrain_map = deserialize_board(arena.boards[bi].terrain_data.as_str());
    let target_terrain = terrain_map[target.y as usize][target.x as usize];
    let defense = get_terrain_defense(target_terrain);
    let damage: i32 = BASE_DAMAGE - defense * 10;
    let hp: i32 = if target.hp - damage < 0 {
        0
    } else {
        target.hp - damage
    };
    arena.units.replace(ti, Unit { hp, ..target });
    arena.units.replace(ai, Unit { has_attacked: true, ..attacker });
    let action_id = arena.actions.next_id;
    arena.actions.insert(
        GameAction {
            id: action_id,
            game_id,
            player: ctx.sender,
            action: ActionKind::Attack { attacker_id, target_id, damage },
            timestamp: ctx.timestamp,
        },
    );
    if hp == 0 {
        let game = arena.games.rows[gi];
        arena.games.replace(
            gi,
            Game { status: GameStatus::Finished, winner: Some(ctx.sender), ..game },
        );
    }
    Ok(())
}

/// Hands the turn to the other player and restores that player's units:
/// full movement, attack available again.
pub fn end_turn(arena: &mut Arena, ctx: Context, game_id: u32) -> (done: Result<
    (),
    CommandError,
>)
    requires
        old(arena)@.wf(),
    ensures
        final(arena)@.wf(),
        match end_turn_check(old(arena)@, ctx, game_id) {
            Some(e) => done == Err::<(), CommandError>(e) && final(arena)@ == old(arena)@,
            None => done == Ok::<(), CommandError>(()) && final(arena)@ == end_turn_next(
                old(arena)@,
                ctx,
                game_id,
            ),
        },
{
    let gi = match check_turn(arena, ctx, game_id) {
        Ok(i) => i,
        Err(e) => {
            return Err(e);
        },
    };
    let game = arena.games.rows[gi];
    let player2 = match game.player2 {
        Some(p) => p,
        None => {
            return Err(CommandError::InvalidState);
        },
    };
    let turn = if game.current_turn == game.player1 {
        player2
    } else {
        game.player1
    };
    let ghost before = arena@;
    arena.games.replace(gi, Game { current_turn: turn, ..game });
    let mut i: usize = 0;
    while i < arena.units.rows.len()
        invariant
            i <= arena.units.rows.len(),
            arena.units.rows.len() == before.units.rows.len(),
            arena.units.next_id == before.units.next_id,
            arena@.players == before.players,
            arena@.boards == before.boards,
            arena@.actions == before.actions,
            arena@.games == before.games.update(Game { current_turn: turn, ..game }),
            forall|k: int|
                0 <= k < i ==> #[trigger] arena.units.rows[k] == refreshed(
                    before.units.rows[k],
                    game_id,
                    turn,
                ),
            forall|k: int|
                i <= k < arena.units.rows.len() ==> #[trigger] arena.units.rows[k]
                    == before.units.rows[k],
        decreases arena.units.rows.len() - i,
    {
        let unit = arena.units.rows[i];
        if unit.game_id == game_id && unit.owner == turn {
            arena.units.rows.set(
                i,
                Unit { movement_left: UNIT_MOVEMENT, has_attacked: false, ..unit },
            );
        }
        i += 1;
    }
    Ok(())
}

} // verus!
