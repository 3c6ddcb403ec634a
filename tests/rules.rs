use chess::movement::add_i32_usize;
use chess::{
    check_for_checked, check_for_checkmate, format_position, parse_piece, parse_position, Colour,
    Game, GameState, Occupant, Piece, Square,
};

fn empty_board() -> Vec<Occupant> {
    vec![None; 64]
}

fn put(board: &mut Vec<Occupant>, x: usize, y: usize, piece: Piece, colour: Colour) {
    board[x * 8 + y] = Some((piece, colour));
}

fn play(game: &mut Game, from: &str, to: &str) -> Option<GameState> {
    game.make_move(from.to_string(), to.to_string())
}

fn names(game: &mut Game, square: &str) -> Option<Vec<String>> {
    game.get_possible_moves(square.to_string())
}

fn snapshot(game: &Game) -> Vec<Occupant> {
    let mut cells = Vec::new();
    for x in 0..8 {
        for y in 0..8 {
            cells.push(game.piece_at(x, y));
        }
    }
    cells
}

#[test]
fn new_game_starting_position() {
    let game = Game::new();
    assert_eq!(game.get_game_state(), GameState::InProgress);
    assert_eq!(game.turn(), Colour::White);
    assert!(!game.is_promotion_pending());
    let order = [
        Piece::Rook,
        Piece::Knight,
        Piece::Bishop,
        Piece::Queen,
        Piece::King,
        Piece::Bishop,
        Piece::Knight,
        Piece::Rook,
    ];
    let mut white = 0;
    let mut black = 0;
    for x in 0..8 {
        assert_eq!(game.piece_at(x, 0), Some((order[x], Colour::White)));
        assert_eq!(game.piece_at(x, 1), Some((Piece::Pawn, Colour::White)));
        assert_eq!(game.piece_at(x, 6), Some((Piece::Pawn, Colour::Black)));
        assert_eq!(game.piece_at(x, 7), Some((order[x], Colour::Black)));
        for y in 2..6 {
            assert_eq!(game.piece_at(x, y), None);
        }
        for y in 0..8 {
            match game.piece_at(x, y) {
                Some((_, Colour::White)) => white += 1,
                Some((_, Colour::Black)) => black += 1,
                None => {}
            }
        }
    }
    assert_eq!(white, 16);
    assert_eq!(black, 16);
    assert_eq!(game.piece_at(8, 0), None);
}

#[test]
fn fools_mate_is_checkmate() {
    let mut game = Game::new();
    assert_eq!(play(&mut game, "f2", "f3"), Some(GameState::InProgress));
    assert_eq!(play(&mut game, "e7", "e6"), Some(GameState::InProgress));
    assert_eq!(play(&mut game, "g2", "g4"), Some(GameState::InProgress));
    assert_eq!(play(&mut game, "d8", "h4"), Some(GameState::Checkmate));
    assert_eq!(game.turn(), Colour::White);

    let mut board = snapshot(&game);
    assert!(check_for_checked(Colour::White, &board));
    assert!(check_for_checkmate(Colour::White, &mut board));
    assert!(!check_for_checked(Colour::Black, &board));
    for x in 0..8 {
        for y in 0..8 {
            if let Some((_, Colour::White)) = game.piece_at(x, y) {
                assert_eq!(game.possible_moves_at((x, y)), Some(vec![]));
            }
        }
    }

    assert_eq!(play(&mut game, "e1", "f2"), None);
    assert_eq!(game.get_game_state(), GameState::GameOver);
    assert_eq!(play(&mut game, "a2", "a3"), None);
    assert_eq!(game.get_game_state(), GameState::GameOver);
}

#[test]
fn rook_blocked_by_own_pawn() {
    let mut board = empty_board();
    put(&mut board, 3, 3, Piece::Rook, Colour::White);
    put(&mut board, 3, 4, Piece::Pawn, Colour::White);
    put(&mut board, 5, 3, Piece::Knight, Colour::Black);
    let moves = Piece::Rook.get_candidate_moves((3, 3), Colour::White, &board);
    let expected: Vec<Square> = vec![(2, 3), (1, 3), (0, 3), (4, 3), (5, 3), (3, 2), (3, 1), (3, 0)];
    assert_eq!(moves, expected);
    for y in 4..8 {
        assert!(!moves.contains(&(3, y)));
    }
    assert!(!moves.contains(&(6, 3)));
}

#[test]
fn rook_in_corner_of_starting_position_has_no_moves() {
    let mut game = Game::new();
    assert_eq!(names(&mut game, "a1"), Some(vec![]));
    assert_eq!(names(&mut game, "h1"), Some(vec![]));
}

#[test]
fn pawn_double_step_needs_free_first_square() {
    let mut board = empty_board();
    put(&mut board, 4, 1, Piece::Pawn, Colour::White);
    put(&mut board, 4, 2, Piece::Knight, Colour::White);
    let moves = Piece::Pawn.get_candidate_moves((4, 1), Colour::White, &board);
    assert!(moves.is_empty());

    let mut game = Game::new();
    play(&mut game, "e2", "e3").unwrap();
    play(&mut game, "b8", "c6").unwrap();
    play(&mut game, "a2", "a3").unwrap();
    assert_eq!(names(&mut game, "c7"), Some(vec![]));
    assert_eq!(
        names(&mut game, "d7"),
        Some(vec!["d6".to_string(), "d5".to_string()])
    );
    assert_eq!(play(&mut game, "c7", "c5"), None);
}

#[test]
fn pawn_captures_diagonally_only_onto_the_other_side() {
    let mut board = empty_board();
    put(&mut board, 3, 6, Piece::Pawn, Colour::Black);
    put(&mut board, 2, 5, Piece::Bishop, Colour::White);
    put(&mut board, 4, 5, Piece::Bishop, Colour::Black);
    let moves = Piece::Pawn.get_candidate_moves((3, 6), Colour::Black, &board);
    assert_eq!(moves, vec![(3, 5), (2, 5), (3, 4)]);
}

#[test]
fn promotion_waits_for_a_choice() {
    let mut game = Game::new();
    play(&mut game, "h2", "h4").unwrap();
    play(&mut game, "g7", "g5").unwrap();
    play(&mut game, "h4", "g5").unwrap();
    play(&mut game, "a7", "a6").unwrap();
    play(&mut game, "g5", "g6").unwrap();
    play(&mut game, "a6", "a5").unwrap();
    play(&mut game, "g6", "h7").unwrap();
    play(&mut game, "a5", "a4").unwrap();
    assert_eq!(game.turn(), Colour::White);
    assert_eq!(play(&mut game, "h7", "g8"), Some(GameState::InProgress));
    assert_eq!(game.piece_at(6, 7), Some((Piece::Pawn, Colour::White)));
    assert_eq!(game.turn(), Colour::White);
    assert!(game.is_promotion_pending());

    assert_eq!(play(&mut game, "a2", "a3"), None);
    game.set_promotion("King".to_string());
    assert!(game.is_promotion_pending());
    assert_eq!(game.turn(), Colour::White);

    game.set_promotion("Queen".to_string());
    assert_eq!(game.piece_at(6, 7), Some((Piece::Queen, Colour::White)));
    assert!(!game.is_promotion_pending());
    assert_eq!(game.turn(), Colour::Black);

    game.set_promotion("Rook".to_string());
    assert_eq!(game.piece_at(6, 7), Some((Piece::Queen, Colour::White)));
    assert_eq!(game.turn(), Colour::Black);
    assert!(play(&mut game, "b7", "b6").is_some());
}

#[test]
fn turns_alternate() {
    let mut game = Game::new();
    assert_eq!(game.turn(), Colour::White);
    play(&mut game, "e2", "e4").unwrap();
    assert_eq!(game.turn(), Colour::Black);
    assert_eq!(play(&mut game, "d2", "d4"), None);
    assert_eq!(game.turn(), Colour::Black);
    play(&mut game, "e7", "e5").unwrap();
    assert_eq!(game.turn(), Colour::White);
}

#[test]
fn queries_leave_the_board_unchanged() {
    let mut game = Game::new();
    play(&mut game, "e2", "e4").unwrap();
    play(&mut game, "d7", "d5").unwrap();
    let before = snapshot(&game);
    let first = names(&mut game, "e4");
    for _ in 0..3 {
        assert_eq!(names(&mut game, "e4"), first);
        assert_eq!(names(&mut game, "d1"), names(&mut game, "d1"));
    }
    assert_eq!(first, Some(vec!["e5".to_string(), "d5".to_string()]));
    assert_eq!(snapshot(&game), before);
    assert_eq!(game.turn(), Colour::White);

    let mut board = before.clone();
    let moves = Piece::Queen.get_available_moves((3, 0), true, &mut board);
    assert_eq!(board, before);
    assert_eq!(moves.len(), 4);
}

#[test]
fn pinned_piece_keeps_its_king_safe() {
    let mut board = empty_board();
    put(&mut board, 4, 0, Piece::King, Colour::White);
    put(&mut board, 4, 1, Piece::Rook, Colour::White);
    put(&mut board, 4, 7, Piece::Rook, Colour::Black);
    put(&mut board, 0, 7, Piece::King, Colour::Black);
    let candidates = Piece::Rook.get_available_moves((4, 1), false, &mut board);
    assert_eq!(candidates.len(), 13);
    let legal = Piece::Rook.get_available_moves((4, 1), true, &mut board);
    assert_eq!(legal, vec![(4, 2), (4, 3), (4, 4), (4, 5), (4, 6), (4, 7)]);
    for to in legal {
        let mut after = board.clone();
        after[to.0 * 8 + to.1] = after[4 * 8 + 1];
        after[4 * 8 + 1] = None;
        assert!(!check_for_checked(Colour::White, &after));
    }
}

#[test]
fn check_is_seen_and_answered() {
    let mut board = empty_board();
    put(&mut board, 4, 0, Piece::King, Colour::White);
    put(&mut board, 0, 5, Piece::Bishop, Colour::Black);
    put(&mut board, 4, 7, Piece::King, Colour::Black);
    assert!(!check_for_checked(Colour::White, &board));
    put(&mut board, 1, 3, Piece::Bishop, Colour::Black);
    assert!(check_for_checked(Colour::White, &board));
    assert!(!check_for_checkmate(Colour::White, &mut board));
    put(&mut board, 2, 2, Piece::Knight, Colour::White);
    assert!(!check_for_checked(Colour::White, &board));
}

#[test]
fn back_rank_mate_is_found() {
    let mut board = empty_board();
    put(&mut board, 6, 0, Piece::King, Colour::White);
    put(&mut board, 5, 1, Piece::Pawn, Colour::White);
    put(&mut board, 6, 1, Piece::Pawn, Colour::White);
    put(&mut board, 7, 1, Piece::Pawn, Colour::White);
    put(&mut board, 0, 0, Piece::Rook, Colour::Black);
    put(&mut board, 0, 7, Piece::King, Colour::Black);
    let before = board.clone();
    assert!(check_for_checkmate(Colour::White, &mut board));
    assert_eq!(board, before);
    put(&mut board, 7, 1, Piece::Pawn, Colour::Black);
    board[7 * 8 + 1] = None;
    assert!(!check_for_checkmate(Colour::White, &mut board));
}

#[test]
fn stalemate_is_not_checkmate() {
    let mut board = empty_board();
    put(&mut board, 7, 7, Piece::King, Colour::Black);
    put(&mut board, 5, 6, Piece::Queen, Colour::White);
    put(&mut board, 0, 0, Piece::King, Colour::White);
    assert!(!check_for_checked(Colour::Black, &board));
    assert!(!check_for_checkmate(Colour::Black, &mut board));
    let moves = Piece::King.get_available_moves((7, 7), true, &mut board);
    assert!(moves.is_empty());
}

#[test]
fn knight_and_king_moves_follow_offset_order() {
    let mut board = empty_board();
    put(&mut board, 0, 0, Piece::Knight, Colour::White);
    let knight = Piece::Knight.get_candidate_moves((0, 0), Colour::White, &board);
    assert_eq!(knight, vec![(1, 2), (2, 1)]);
    put(&mut board, 4, 4, Piece::King, Colour::Black);
    put(&mut board, 3, 4, Piece::Pawn, Colour::Black);
    put(&mut board, 5, 5, Piece::Pawn, Colour::White);
    let king = Piece::King.get_candidate_moves((4, 4), Colour::Black, &board);
    assert_eq!(king, vec![(3, 5), (4, 5), (5, 5), (5, 4), (5, 3), (4, 3), (3, 3)]);
    let mut game = Game::new();
    assert_eq!(names(&mut game, "b1"), Some(vec!["a3".to_string(), "c3".to_string()]));
    assert_eq!(names(&mut game, "e2"), Some(vec!["e3".to_string(), "e4".to_string()]));
}

#[test]
fn bishop_and_queen_rays() {
    let mut board = empty_board();
    put(&mut board, 2, 0, Piece::Bishop, Colour::White);
    put(&mut board, 4, 2, Piece::Pawn, Colour::Black);
    let bishop = Piece::Bishop.get_candidate_moves((2, 0), Colour::White, &board);
    assert_eq!(bishop, vec![(1, 1), (0, 2), (3, 1), (4, 2)]);
    let mut lone = empty_board();
    put(&mut lone, 3, 3, Piece::Queen, Colour::Black);
    let queen = Piece::Queen.get_candidate_moves((3, 3), Colour::Black, &lone);
    assert_eq!(queen.len(), 27);
    assert_eq!(queen[0], (2, 3));
    assert_eq!(queen[14], (2, 4));
}

#[test]
fn refused_move_requests() {
    let mut game = Game::new();
    assert_eq!(play(&mut game, "e4", "e5"), None);
    assert_eq!(play(&mut game, "e7", "e5"), None);
    assert_eq!(play(&mut game, "e2", "e5"), None);
    assert_eq!(play(&mut game, "z2", "e4"), None);
    assert_eq!(play(&mut game, "e2", "e9"), None);
    assert_eq!(play(&mut game, "e", "e4"), None);
    assert_eq!(play(&mut game, "e2", "e44"), None);
    assert_eq!(game.get_game_state(), GameState::InProgress);
    assert_eq!(game.turn(), Colour::White);
    assert_eq!(snapshot(&game), snapshot(&Game::new()));
    assert_eq!(game.make_move_at((8, 1), (0, 2)), None);
    assert_eq!(game.make_move_at((4, 1), (4, 3)), Some(GameState::InProgress));
}

#[test]
fn possible_moves_only_for_the_side_to_move() {
    let mut game = Game::new();
    assert_eq!(names(&mut game, "e7"), None);
    assert_eq!(names(&mut game, "e4"), None);
    assert_eq!(names(&mut game, "i1"), None);
    assert_eq!(game.possible_moves_at((9, 9)), None);
    assert_eq!(game.possible_moves_at((6, 0)), Some(vec![(5, 2), (7, 2)]));
}

#[test]
fn square_names() {
    assert_eq!(parse_position(&"e4".to_string()), Some((4, 3)));
    assert_eq!(parse_position(&"a1".to_string()), Some((0, 0)));
    assert_eq!(parse_position(&"h8".to_string()), Some((7, 7)));
    assert_eq!(parse_position(&"i1".to_string()), None);
    assert_eq!(parse_position(&"a0".to_string()), None);
    assert_eq!(parse_position(&"A1".to_string()), None);
    assert_eq!(parse_position(&"".to_string()), None);
    assert_eq!(format_position((4, 3)), "e4");
    assert_eq!(format_position((0, 7)), "a8");
    assert_eq!(format_position((7, 0)), "h1");
}

#[test]
fn promotion_names() {
    assert_eq!(parse_piece(&"Queen".to_string()), Some(Piece::Queen));
    assert_eq!(parse_piece(&"Rook".to_string()), Some(Piece::Rook));
    assert_eq!(parse_piece(&"Bishop".to_string()), Some(Piece::Bishop));
    assert_eq!(parse_piece(&"Knight".to_string()), Some(Piece::Knight));
    assert_eq!(parse_piece(&"King".to_string()), None);
    assert_eq!(parse_piece(&"Pawn".to_string()), None);
    assert_eq!(parse_piece(&"queen".to_string()), None);
}

#[test]
fn offsets_added_to_indices() {
    assert_eq!(add_i32_usize(3, 2), Some(5));
    assert_eq!(add_i32_usize(3, -3), Some(0));
    assert_eq!(add_i32_usize(3, -4), None);
    assert_eq!(add_i32_usize(usize::MAX, 1), None);
    assert_eq!(add_i32_usize(0, i32::MIN), None);
}
