use insect_colony_wars::duel::board::{
    calculate_distance, deserialize_board, generate_random_board, get_terrain_defense,
    is_adjacent, serialize_board, TerrainType,
};

#[test]
fn terrain_defense_levels() {
    assert_eq!(get_terrain_defense(TerrainType::Plains), 0);
    assert_eq!(get_terrain_defense(TerrainType::Forest), 1);
    assert_eq!(get_terrain_defense(TerrainType::Mountain), 2);
}

#[test]
fn standard_board_text() {
    let board = generate_random_board();
    assert_eq!(serialize_board(&board), "PPPPPPFPFPPFMPPPFPFPPPPPP");
}

#[test]
fn board_round_trip() {
    let board = generate_random_board();
    let text = serialize_board(&board);
    assert_eq!(deserialize_board(&text), board);
}

#[test]
fn short_text_reads_as_plains() {
    let board = deserialize_board("MF");
    assert_eq!(board.len(), 5);
    assert_eq!(board[0][0], TerrainType::Mountain);
    assert_eq!(board[0][1], TerrainType::Forest);
    assert_eq!(board[0][2], TerrainType::Plains);
    assert_eq!(board[4][4], TerrainType::Plains);
}

#[test]
fn unknown_letters_read_as_plains() {
    let board = deserialize_board("xyzFM");
    assert_eq!(board[0][0], TerrainType::Plains);
    assert_eq!(board[0][3], TerrainType::Forest);
    assert_eq!(board[0][4], TerrainType::Mountain);
}

#[test]
fn adjacency_excludes_diagonals() {
    assert!(is_adjacent(1, 1, 1, 2));
    assert!(is_adjacent(1, 1, 0, 1));
    assert!(!is_adjacent(1, 1, 2, 2));
    assert!(!is_adjacent(1, 1, 1, 1));
    assert!(!is_adjacent(0, 0, 0, 2));
}

#[test]
fn manhattan_distance_values() {
    assert_eq!(calculate_distance(0, 0, 4, 4), 8);
    assert_eq!(calculate_distance(3, 1, 1, 2), 3);
    assert_eq!(calculate_distance(2, 2, 2, 2), 0);
    assert_eq!(calculate_distance(0, 0, 255, 255), 254);
}
