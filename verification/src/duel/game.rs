//! The duel's records, its state, and the commands players issue.
//!
//! Every command first runs all of its checks against the state it was given.
//! If one fails, the command reports the first failure and leaves the state
//! untouched; otherwise it applies all of its changes.

use vstd::prelude::*;
use crate::duel::board::{
    decoded_cell, manhattan, standard_terrain, terrain_char, terrain_defense, GameStatus,
    TerrainType,
};
use crate::error::{CommandError, Entity};
use crate::identity::{Context, Identity};
use crate::table::{Row, Table, TableView};

verus! {

/// Hit points of a fresh unit.
pub const UNIT_HP: i32 = 100;

/// Movement points a unit has at the start of its owner's turn.
pub const UNIT_MOVEMENT: u8 = 3;

/// Damage of an attack before terrain is taken into account.
pub const BASE_DAMAGE: i32 = 30;

/// A registered player.
#[derive(Clone, Debug)]
pub struct Player {
    pub id: Identity,
    pub username: String,
    pub created_at: u64,
}

/// The mathematical content of a [`Player`].
pub struct PlayerView {
    pub id: Identity,
    pub username: Seq<char>,
    pub created_at: u64,
}

impl View for Player {
    type V = PlayerView;

    open spec fn view(&self) -> PlayerView {
        PlayerView { id: self.id, username: self.username@, created_at: self.created_at }
    }
}

/// A match between two players.
#[derive(Clone, Copy, Debug, PartialEq, Eq, Structural)]
pub struct Game {
    pub id: u32,
    pub player1: Identity,
    pub player2: Option<Identity>,
    pub current_turn: Identity,
    pub status: GameStatus,
    pub winner: Option<Identity>,
    pub created_at: u64,
}

impl Row for Game {
    open spec fn key(&self) -> u32 {
        self.id
    }

    fn id(&self) -> u32 {
        self.id
    }
}

/// The terrain of one game, as 25 letters, rows top to bottom.
#[derive(Clone, Debug)]
pub struct Board {
    pub game_id: u32,
    pub terrain_data: String,
}

/// The mathematical content of a [`Board`].
pub struct BoardView {
    pub game_id: u32,
    pub terrain_data: Seq<char>,
}

impl View for Board {
    type V = BoardView;

    open spec fn view(&self) -> BoardView {
        BoardView { game_id: self.game_id, terrain_data: self.terrain_data@ }
    }
}

/// A combat unit on the board.
#[derive(Clone, Copy, Debug, PartialEq, Eq, Structural)]
pub struct Unit {
    pub id: u32,
    pub game_id: u32,
    pub owner: Identity,
    pub x: u8,
    pub y: u8,
    pub hp: i32,
    pub movement_left: u8,
    pub has_attacked: bool,
}

impl Row for Unit {
    open spec fn key(&self) -> u32 {
        self.id
    }

    fn id(&self) -> u32 {
        self.id
    }
}

/// What a logged action did.
#[derive(Clone, Copy, Debug, PartialEq, Eq, Structural)]
pub enum ActionKind {
    Move { unit_id: u32, x: u8, y: u8 },
    Attack { attacker_id: u32, target_id: u32, damage: i32 },
}

/// One entry of the action log.
#[derive(Clone, Copy, Debug, PartialEq, Eq, Structural)]
pub struct GameAction {
    pub id: u32,
    pub game_id: u32,
    pub player: Identity,
    pub action: ActionKind,
    pub timestamp: u64,
}

impl Row for GameAction {
    open spec fn key(&self) -> u32 {
        self.id
    }

    fn id(&self) -> u32 {
        self.id
    }
}

/// Everything the duel keeps: players, games, boards, units and the log.
pub struct Arena {
    pub players: Vec<Player>,
    pub games: Table<Game>,
    pub boards: Vec<Board>,
    pub units: Table<Unit>,
    pub actions: Table<GameAction>,
}

/// The mathematical content of an [`Arena`].
#[verifier::ext_equal]
pub struct ArenaView {
    pub players: Seq<PlayerView>,
    pub games: TableView<Game>,
    pub boards: Seq<BoardView>,
    pub units: TableView<Unit>,
    pub actions: TableView<GameAction>,
}

impl View for Arena {
    type V = ArenaView;

    open spec fn view(&self) -> ArenaView {
        ArenaView {
            players: player_views(self.players@),
            games: self.games@,
            boards: board_views(self.boards@),
            units: self.units@,
            actions: self.actions@,
        }
    }
}

/// The players as their mathematical content.
pub open spec fn player_views(players: Seq<Player>) -> Seq<PlayerView> {
    players.map_values(|p: Player| p@)
}

/// The boards as their mathematical content.
pub open spec fn board_views(boards: Seq<Board>) -> Seq<BoardView> {
    boards.map_values(|b: Board| b@)
}

impl ArenaView {
    /// Tables are well formed, boards are sorted by the game they belong to
    /// and belong to games already created, and units stand on the board.
    pub open spec fn wf(self) -> bool {
        &&& self.games.wf()
        &&& self.units.wf()
        &&& self.actions.wf()
        &&& forall|i: int, j: int|
            0 <= i < j < self.boards.len() ==> (#[trigger] self.boards[i]).game_id < (
            #[trigger] self.boards[j]).game_id
        &&& forall|i: int|
            0 <= i < self.boards.len() ==> (#[trigger] self.boards[i]).game_id
                < self.games.next_id
        &&& forall|i: int|
            0 <= i < self.units.rows.len() ==> (#[trigger] self.units.rows[i]).x < 5
                && self.units.rows[i].y < 5
    }

    /// Some player has identity `id`.
    pub open spec fn has_player(self, id: Identity) -> bool {
        exists|i: int| 0 <= i < self.players.len() && (#[trigger] self.players[i]).id == id
    }

    /// Game `game_id` has a board.
    pub open spec fn has_board(self, game_id: u32) -> bool {
        exists|i: int| 0 <= i < self.boards.len() && (#[trigger] self.boards[i]).game_id == game_id
    }

    /// The board of game `game_id` (meaningful when there is one).
    pub open spec fn board(self, game_id: u32) -> BoardView {
        self.boards[choose|i: int|
            0 <= i < self.boards.len() && (#[trigger] self.boards[i]).game_id == game_id]
    }

    /// A living unit of game `game_id` stands on cell (`x`, `y`).
    pub open spec fn occupied(self, game_id: u32, x: u8, y: u8) -> bool {
        exists|i: int|
            0 <= i < self.units.rows.len() && unit_blocks(
                #[trigger] self.units.rows[i],
                game_id,
                x,
                y,
            )
    }

    /// The first reason the caller may not act in game `game_id` now, if any.
    pub open spec fn turn_check(self, ctx: Context, game_id: u32) -> Option<CommandError> {
        if !self.games.contains(game_id) {
            Some(CommandError::NotFound(Entity::Game))
        } else if self.games.get(game_id).status != GameStatus::InProgress {
            Some(CommandError::InvalidState)
        } else if self.games.get(game_id).current_turn != ctx.sender {
            Some(CommandError::Unauthorized)
        } else {
            None
        }
    }
}

/// Checks everything the duel's commands rely on. An arena changed only
/// through commands always passes.
pub fn is_well_formed(arena: &Arena) -> (ok: bool)
    ensures
        ok == arena@.wf(),
{
    if !(arena.games.is_well_formed() && arena.units.is_well_formed()
        && arena.actions.is_well_formed()) {
        return false;
    }
    let mut i: usize = 0;
    while i < arena.boards.len()
        invariant
            i <= arena.boards.len(),
            forall|a: int, b: int|
                0 <= a < b < i ==> (#[trigger] arena@.boards[a]).game_id < (
                #[trigger] arena@.boards[b]).game_id,
            forall|a: int|
                0 <= a < i ==> (#[trigger] arena@.boards[a]).game_id < arena@.games.next_id,
        decreases arena.boards.len() - i,
    {
        let game_id = arena.boards[i].game_id;
        if game_id >= arena.games.next_id {
            assert(!(arena@.boards[i as int].game_id < arena@.games.next_id));
            return false;
        }
        if i > 0 && arena.boards[i - 1].game_id >= game_id {
            assert(!(arena@.boards[i - 1].game_id < arena@.boards[i as int].game_id));
            return false;
        }
        i += 1;
    }
    let mut i: usize = 0;
    while i < arena.units.rows.len()
        invariant
            i <= arena.units.rows.len(),
            forall|k: int|
                0 <= k < i ==> (#[trigger] arena@.units.rows[k]).x < 5 && arena@.units.rows[k].y
                    < 5,
        decreases arena.units.rows.len() - i,
    {
        if arena.units.rows[i].x >= 5 || arena.units.rows[i].y >= 5 {
            assert(!(arena@.units.rows[i as int].x < 5 && arena@.units.rows[i as int].y < 5));
            return false;
        }
        i += 1;
    }
    true
}

/// The unit is alive and stands on cell (`x`, `y`) of game `game_id`.
pub open spec fn unit_blocks(unit: Unit, game_id: u32, x: u8, y: u8) -> bool {
    unit.game_id == game_id && unit.x == x && unit.y == y && unit.hp > 0
}

/// The letters of the board every duel is played on.
pub open spec fn standard_board_text() -> Seq<char> {
    Seq::new(25, |k: int| terrain_char(standard_terrain(k / 5, k % 5)))
}

/// Damage an attack deals to a unit standing on `terrain`.
pub open spec fn damage_on(terrain: TerrainType) -> int {
    BASE_DAMAGE - 10 * terrain_defense(terrain)
}

/// Hit points left after `damage`, never below zero.
pub open spec fn hp_after(hp: int, damage: int) -> int {
    if hp - damage < 0 {
        0
    } else {
        hp - damage
    }
}

/// A unit as its owner's new turn finds it, if it belongs to `owner` in `game_id`.
pub open spec fn refreshed(unit: Unit, game_id: u32, owner: Identity) -> Unit {
    if unit.game_id == game_id && unit.owner == owner {
        Unit { movement_left: UNIT_MOVEMENT, has_attacked: false, ..unit }
    } else {
        unit
    }
}

// ----- create_player -----

/// Why registering a player is turned down: the first test that fails, in the
/// order given here. `None` means it goes ahead.
pub open spec fn create_player_check(s: ArenaView, ctx: Context) -> Option<CommandError> {
    if s.has_player(ctx.sender) {
        Some(CommandError::InvalidState)
    } else {
        None
    }
}

/// The state after registering a player that went ahead.
pub open spec fn create_player_next(s: ArenaView, ctx: Context, username: Seq<char>) -> ArenaView {
    ArenaView {
        players: s.players.push(
            PlayerView { id: ctx.sender, username, created_at: ctx.timestamp },
        ),
        ..s
    }
}

// ----- create_game -----

/// Why opening a game is turned down: the first test that fails, in the
/// order given here. `None` means it goes ahead.
pub open spec fn create_game_check(s: ArenaView, ctx: Context) -> Option<CommandError> {
    if !s.has_player(ctx.sender) {
        Some(CommandError::NotFound(Entity::Player))
    } else if s.games.is_full() || s.units.is_full() {
        Some(CommandError::Exhausted)
    } else {
        None
    }
}

/// The state after opening a game that went ahead.
pub open spec fn create_game_next(s: ArenaView, ctx: Context) -> ArenaView {
    ArenaView {
        games: s.games.insert(
            Game {
                id: s.games.next_id,
                player1: ctx.sender,
                player2: None,
                current_turn: ctx.sender,
                status: GameStatus::WaitingForPlayers,
                winner: None,
                created_at: ctx.timestamp,
            },
        ),
        boards: s.boards.push(
            BoardView { game_id: s.games.next_id, terrain_data: standard_board_text() },
        ),
        units: s.units.insert(
            Unit {
                id: s.units.next_id,
                game_id: s.games.next_id,
                owner: ctx.sender,
                x: 0,
                y: 0,
                hp: UNIT_HP,
                movement_left: UNIT_MOVEMENT,
                has_attacked: false,
            },
        ),
        ..s
    }
}

// ----- join_game -----

/// Why joining a game is turned down: the first test that fails, in the
/// order given here. `None` means it goes ahead.
pub open spec fn join_game_check(s: ArenaView, ctx: Context, game_id: u32) -> Option<
    CommandError,
> {
    if !s.has_player(ctx.sender) {
        Some(CommandError::NotFound(Entity::Player))
    } else if !s.games.contains(game_id) {
        Some(CommandError::NotFound(Entity::Game))
    } else if s.games.get(game_id).status != GameStatus::WaitingForPlayers {
        Some(CommandError::InvalidState)
    } else if s.games.get(game_id).player1 == ctx.sender {
        Some(CommandError::InvalidState)
    } else if s.units.is_full() {
        Some(CommandError::Exhausted)
    } else {
        None
    }
}

/// The state after joining a game that went ahead.
pub open spec fn join_game_next(s: ArenaView, ctx: Context, game_id: u32) -> ArenaView {
    ArenaView {
        games: s.games.update(
            Game {
                player2: Some(ctx.sender),
                status: GameStatus::InProgress,
                ..s.games.get(game_id)
            },
        ),
        units: s.units.insert(
            Unit {
                id: s.units.next_id,
                game_id,
                owner: ctx.sender,
                x: 4,
                y: 4,
                hp: UNIT_HP,
                movement_left: UNIT_MOVEMENT,
                has_attacked: false,
            },
        ),
        ..s
    }
}

// ----- move_unit -----

/// Why a move is turned down: the first test that fails, in the
/// order given here. `None` means it goes ahead.
pub open spec fn move_unit_check(
    s: ArenaView,
    ctx: Context,
    game_id: u32,
    unit_id: u32,
    new_x: u8,
    new_y: u8,
) -> Option<CommandError> {
    if s.turn_check(ctx, game_id) is Some {
        s.turn_check(ctx, game_id)
    } else if !s.units.contains(unit_id) {
        Some(CommandError::NotFound(Entity::Unit))
    } else {
        let unit = s.units.get(unit_id);
        if unit.owner != ctx.sender {
            Some(CommandError::Unauthorized)
        } else if unit.game_id != game_id {
            Some(CommandError::InvalidState)
        } else if new_x >= 5 || new_y >= 5 {
            Some(CommandError::OutOfRange)
        } else if manhattan(unit.x as int, unit.y as int, new_x as int, new_y as int)
            > unit.movement_left {
            Some(CommandError::OutOfRange)
        } else if s.occupied(game_id, new_x, new_y) {
            Some(CommandError::InvalidState)
        } else if s.actions.is_full() {
            Some(CommandError::Exhausted)
        } else {
            None
        }
    }
}

/// The state after a move that went ahead.
pub open spec fn move_unit_next(
    s: ArenaView,
    ctx: Context,
    game_id: u32,
    unit_id: u32,
    new_x: u8,
    new_y: u8,
) -> ArenaView {
    let unit = s.units.get(unit_id);
    let steps = manhattan(unit.x as int, unit.y as int, new_x as int, new_y as int);
    ArenaView {
        units: s.units.update(
            Unit { x: new_x, y: new_y, movement_left: (unit.movement_left - steps) as u8, ..unit },
        ),
        actions: s.actions.insert(
            GameAction {
                id: s.actions.next_id,
                game_id,
                player: ctx.sender,
                action: ActionKind::Move { unit_id, x: new_x, y: new_y },
                timestamp: ctx.timestamp,
            },
        ),
        ..s
    }
}

// ----- attack_unit -----

/// Why an attack is turned down: the first test that fails, in the
/// order given here. `None` means it goes ahead.
pub open spec fn attack_unit_check(
    s: ArenaView,
    ctx: Context,
    game_id: u32,
    attacker_id: u32,
    target_id: u32,
) -> Option<CommandError> {
    if s.turn_check(ctx, game_id) is Some {
        s.turn_check(ctx, game_id)
    } else if !s.units.contains(attacker_id) || !s.units.contains(target_id) {
        Some(CommandError::NotFound(Entity::Unit))
    } else {
        let attacker = s.units.get(attacker_id);
        let target = s.units.get(target_id);
        if attacker.owner != ctx.sender {
            Some(CommandError::Unauthorized)
        } else if attacker.game_id != game_id || target.game_id != game_id {
            Some(CommandError::InvalidState)
        } else if attacker.has_attacked {
            Some(CommandError::InvalidState)
        } else if target.hp <= 0 {
            Some(CommandError::InvalidState)
        } else if manhattan(
            attacker.x as int,
            attacker.y as int,
            target.x as int,
            target.y as int,
        ) != 1 {
            Some(CommandError::OutOfRange)
        } else if !s.has_board(game_id) {
            Some(CommandError::NotFound(Entity::Board))
        } else if s.actions.is_full() {
            Some(CommandError::Exhausted)
        } else {
            None
        }
    }
}

/// Damage the attack on `target_id` deals: 30, less 10 per defense level of
/// the terrain the target stands on.
pub open spec fn attack_unit_damage(s: ArenaView, game_id: u32, target_id: u32) -> int {
    let target = s.units.get(target_id);
    damage_on(decoded_cell(s.board(game_id).terrain_data, target.y as int, target.x as int))
}

/// The state after an attack that went ahead.
pub open spec fn attack_unit_next(
    s: ArenaView,
    ctx: Context,
    game_id: u32,
    attacker_id: u32,
    target_id: u32,
) -> ArenaView {
    let attacker = s.units.get(attacker_id);
    let target = s.units.get(target_id);
    let damage = attack_unit_damage(s, game_id, target_id);
    let hp = hp_after(target.hp as int, damage);
    ArenaView {
        units: s.units.update(Unit { hp: hp as i32, ..target }).update(
            Unit { has_attacked: true, ..attacker },
        ),
        actions: s.actions.insert(
            GameAction {
                id: s.actions.next_id,
                game_id,
                player: ctx.sender,
                action: ActionKind::Attack { attacker_id, target_id, damage: damage as i32 },
                timestamp: ctx.timestamp,
            },
        ),
        games: if hp == 0 {
            s.games.update(
                Game {
                    status: GameStatus::Finished,
                    winner: Some(ctx.sender),
                    ..s.games.get(game_id)
                },
            )
        } else {
            s.games
        },
        ..s
    }
}

// ----- end_turn -----

/// Why ending a turn is turned down: the first test that fails, in the
/// order given here. `None` means it goes ahead.
pub open spec fn end_turn_check(s: ArenaView, ctx: Context, game_id: u32) -> Option<
    CommandError,
> {
    if s.turn_check(ctx, game_id) is Some {
        s.turn_check(ctx, game_id)
    } else if s.games.get(game_id).player2 is None {
        Some(CommandError::InvalidState)
    } else {
        None
    }
}

/// The player whose turn comes after the current one.
pub open spec fn next_turn(game: Game) -> Identity {
    if game.current_turn == game.player1 {
        game.player2->0
    } else {
        game.player1
    }
}

/// The state after ending a turn that went ahead.
pub open spec fn end_turn_next(s: ArenaView, ctx: Context, game_id: u32) -> ArenaView {
    let game = s.games.get(game_id);
    let turn = next_turn(game);
    ArenaView {
        games: s.games.update(Game { current_turn: turn, ..game }),
        units: TableView {
            rows: s.units.rows.map_values(|u: Unit| refreshed(u, game_id, turn)),
            ..s.units
        },
        ..s
    }
}

} // verus!
