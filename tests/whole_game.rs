use chess::{Game, GameState};

fn test_move(from: &str, to: &str, game: &mut Game) {
    assert_eq!(game.make_move(from.to_string(), to.to_string()).is_none(), false);
}

fn test_invalid_move(from: &str, to: &str, game: &mut Game) {
    assert_eq!(game.make_move(from.to_string(), to.to_string()).is_none(), true);
}

#[test]
fn test_whole_chess_game() {
    let mut game = Game::new();

    test_move("a2", "a3", &mut game);
    test_move("c7", "c5", &mut game);

    test_move("e2", "e3", &mut game);
    test_move("d8", "a5", &mut game);

    test_move("h2", "h3", &mut game);
    test_move("h7", "h5", &mut game);

    test_move("e3", "e4", &mut game);
    test_move("h8", "h6", &mut game);

    test_move("a1", "a2", &mut game);
    test_move("h6", "f6", &mut game);

    test_invalid_move("d2", "d3", &mut game);

    test_move("c2", "c3", &mut game);
    test_move("g8", "h6", &mut game);

    test_move("d2", "d4", &mut game);
    test_move("c5", "c4", &mut game);

    test_move("e4", "e5", &mut game);
    test_move("a5", "e5", &mut game);

    assert_eq!(game.get_game_state(), GameState::Check);

    test_invalid_move("e1", "e2", &mut game);

    assert_eq!(game.get_game_state(), GameState::Check);

    test_move("e1", "d2", &mut game);

    assert_eq!(game.get_game_state(), GameState::InProgress);

    test_move("e5", "e2", &mut game);

    test_move("d2", "e2", &mut game);
    test_move("d7", "d5", &mut game);

    test_move("d1", "d3", &mut game);
    test_move("h5", "h4", &mut game);

    test_move("d3", "e3", &mut game);
    test_move("a7", "a6", &mut game);

    test_move("e3", "e5", &mut game);
    test_move("a6", "a5", &mut game);

    test_move("e5", "d5", &mut game);
    test_move("a5", "a4", &mut game);

    test_move("d5", "a5", &mut game);
    test_move("g7", "g6", &mut game);

    test_move("d4", "d5", &mut game);
    test_move("h6", "f5", &mut game);

    test_move("d5", "d6", &mut game);
    test_move("f8", "h6", &mut game);

    test_move("d6", "d7", &mut game);
    test_move("e8", "f8", &mut game);

    test_move("d7", "d8", &mut game);
    game.set_promotion("Queen".to_string());
    test_move("f8", "g7", &mut game);

    test_move("b2", "b3", &mut game);
    test_move("g6", "g5", &mut game);

    test_move("h1", "h2", &mut game);
    test_move("g5", "g4", &mut game);

    test_move("h2", "h1", &mut game);
    test_move("a8", "a6", &mut game);

    test_move("h1", "h2", &mut game);
    test_move("a6", "d6", &mut game);

    test_move("a2", "b2", &mut game);
    test_move("h6", "c1", &mut game);

    test_move("h2", "h1", &mut game);
    test_move("f6", "e6", &mut game);

    test_move("a5", "e5", &mut game);
    test_move("e6", "e5", &mut game);

    // The rook on e5 attacks White's king on e2, which has no square to go to,
    // and nothing can take or block the rook: a move that leaves one's own king
    // attacked is never legal, even one that would attack the other king.
    assert_eq!(game.get_game_state(), GameState::Checkmate);

    test_invalid_move("d8", "f8", &mut game);
    assert_eq!(game.get_game_state(), GameState::GameOver);
}
