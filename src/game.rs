use vstd::prelude::*;
use crate::board::{
    apply_move, board_wf, cell, in_check, is_checkmate, legal_moves, on_board, square_on_board,
    Occupant, Square,
};
use crate::check::{all_on_board, check_for_checked, check_for_checkmate, lemma_legal_moves_on_board};
use crate::coords::{
    format_position, parse_piece, parse_position, parse_square, promotion_named, square_name,
};
use crate::types::{opponent, Colour, GameState, Piece};

verus! {

/// What a game is, mathematically.
pub struct GameModel {
    pub state: GameState,
    pub board: Seq<Occupant>,
    pub turn: Colour,
    /// A pawn has reached the far rank and the turn waits for its promotion.
    pub move_made: bool,
}

/// The back rank, file by file.
pub open spec fn back_rank(x: int) -> Piece {
    seq![
        Piece::Rook,
        Piece::Knight,
        Piece::Bishop,
        Piece::Queen,
        Piece::King,
        Piece::Bishop,
        Piece::Knight,
        Piece::Rook,
    ][x]
}

/// What stands on (x, y) in the starting position.
pub open spec fn initial_cell(x: int, y: int) -> Occupant {
    if y == 0 {
        Some((back_rank(x), Colour::White))
    } else if y == 1 {
        Some((Piece::Pawn, Colour::White))
    } else if y == 6 {
        Some((Piece::Pawn, Colour::Black))
    } else if y == 7 {
        Some((back_rank(x), Colour::Black))
    } else {
        None
    }
}

/// The rank on which a pawn of `colour` is promoted.
pub open spec fn last_rank(colour: Colour) -> int {
    if colour == Colour::White {
        7
    } else {
        0
    }
}

/// Whether the game is over, so that no move is taken any more.
pub open spec fn is_terminal(g: GameModel) -> bool {
    g.state == GameState::Checkmate || g.state == GameState::GameOver
}

/// The game after a rejected move request: unchanged, except that a game that
/// ended in checkmate now reads `GameOver`.
pub open spec fn rejected(g: GameModel) -> GameModel {
    if is_terminal(g) {
        GameModel { state: GameState::GameOver, board: g.board, turn: g.turn, move_made: g.move_made }
    } else {
        g
    }
}

/// Whether moving from `from` to `to` is accepted: the game is running, no
/// promotion is pending, `from` holds a piece of the side to move, and `to` is
/// one of its legal moves.
pub open spec fn move_allowed(g: GameModel, from: Square, to: Square) -> bool {
    &&& !is_terminal(g)
    &&& !g.move_made
    &&& square_on_board(from)
    &&& cell(g.board, from.0 as int, from.1 as int) matches Some(o) && o.1 == g.turn
    &&& legal_moves(g.board, from.0 as int, from.1 as int).contains(to)
}

/// The state after a move, judged for the side `side` that moves next.
pub open spec fn state_after(b: Seq<Occupant>, side: Colour) -> GameState {
    if in_check(b, side) {
        if is_checkmate(b, side) {
            GameState::Checkmate
        } else {
            GameState::Check
        }
    } else {
        GameState::InProgress
    }
}

/// Whether moving the piece on `from` to `to` brings a pawn to its far rank.
pub open spec fn promotes(g: GameModel, from: Square, to: Square) -> bool {
    let o = cell(g.board, from.0 as int, from.1 as int).unwrap();
    o.0 == Piece::Pawn && to.1 == last_rank(o.1)
}

/// The game after an accepted move: the piece is moved, the state judged for
/// the other side, and the turn passed on unless a promotion is now pending.
pub open spec fn after_move(g: GameModel, from: Square, to: Square) -> GameModel {
    let board = apply_move(g.board, from, to);
    let p = promotes(g, from, to);
    GameModel {
        state: state_after(board, opponent(g.turn)),
        board,
        turn: if p {
            g.turn
        } else {
            opponent(g.turn)
        },
        move_made: p,
    }
}

/// The game after a move request, and what the request returns.
pub open spec fn move_result(g: GameModel, from: Square, to: Square) -> (GameModel, Option<GameState>) {
    if move_allowed(g, from, to) {
        (after_move(g, from, to), Some(after_move(g, from, to).state))
    } else {
        (rejected(g), None)
    }
}

/// Whether `piece` is a kind a pawn may be promoted to.
pub open spec fn promotion_choice(piece: Piece) -> bool {
    piece == Piece::Queen || piece == Piece::Rook || piece == Piece::Bishop || piece == Piece::Knight
}

/// The first file, from `i` on, whose square on rank `row` holds a pawn of `side`.
pub open spec fn first_pawn_from(b: Seq<Occupant>, row: int, side: Colour, i: int) -> Option<int>
    decreases 8 - i,
{
    if i >= 8 {
        None
    } else if cell(b, i, row) == Some((Piece::Pawn, side)) {
        Some(i)
    } else {
        first_pawn_from(b, row, side, i + 1)
    }
}

/// The game after a promotion request: with a promotion pending and a valid
/// choice, the first pawn of the side to move on its far rank becomes `piece`
/// and the turn passes on; otherwise nothing changes.
pub open spec fn promotion_result(g: GameModel, piece: Piece) -> GameModel {
    let row = last_rank(g.turn);
    if g.move_made && promotion_choice(piece) {
        match first_pawn_from(g.board, row, g.turn, 0) {
            Some(x) => GameModel {
                state: g.state,
                board: g.board.update(x * 8 + row, Some((piece, g.turn))),
                turn: opponent(g.turn),
                move_made: false,
            },
            None => g,
        }
    } else {
        g
    }
}

/// The answer to a possible-moves query on `sq`: the legal moves of the piece
/// there if it belongs to the side to move, else nothing.
pub open spec fn possible_moves(g: GameModel, sq: Square) -> Option<Seq<Square>> {
    if square_on_board(sq) && (cell(g.board, sq.0 as int, sq.1 as int) matches Some(o) && o.1 == g.turn) {
        Some(legal_moves(g.board, sq.0 as int, sq.1 as int))
    } else {
        None
    }
}

/// A game of chess.
pub struct Game {
    state: GameState,
    board: Vec<Occupant>,
    turn: Colour,
    move_made: bool,
}

impl View for Game {
    type V = GameModel;

    closed spec fn view(&self) -> GameModel {
        GameModel { state: self.state, board: self.board@, turn: self.turn, move_made: self.move_made }
    }
}

impl Game {
    /// Well-formedness: the board holds all 64 squares.
    pub open spec fn wf(&self) -> bool {
        board_wf(self@.board)
    }

    /// Passes the turn to the other side, which ends any pending promotion.
    fn change_turn(&mut self)
        requires
            old(self).wf(),
        ensures
            final(self)@ == (GameModel {
                state: old(self)@.state,
                board: old(self)@.board,
                turn: opponent(old(self)@.turn),
                move_made: false,
            }),
    {
        self.turn = self.turn.other();
        self.move_made = false;
    }

    /// Fills `main_row` with `colour`'s back rank and `pawn_row` with its pawns.
    fn set_default_pieces(&mut self, colour: Colour, main_row: usize, pawn_row: usize)
        requires
            old(self).wf(),
            main_row < 8,
            pawn_row < 8,
            main_row != pawn_row,
        ensures
            final(self)@.state == old(self)@.state,
            final(self)@.turn == old(self)@.turn,
            final(self)@.move_made == old(self)@.move_made,
            final(self)@.board.len() == 64,
            forall|x: int, y: int|
                on_board(x, y) ==> #[trigger] cell(final(self)@.board, x, y) == if y == main_row {
                    Some((back_rank(x), colour))
                } else if y == pawn_row {
                    Some((Piece::Pawn, colour))
                } else {
                    cell(old(self)@.board, x, y)
                },
    {
        let ghost b0 = self.board@;
        for x in 0..8usize
            invariant
                self.board@.len() == 64,
                b0.len() == 64,
                main_row < 8,
                pawn_row < 8,
                main_row != pawn_row,
                self.state == old(self).state,
                self.turn == old(self).turn,
                self.move_made == old(self).move_made,
                b0 == old(self).board@,
                forall|x2: int, y2: int|
                    on_board(x2, y2) ==> #[trigger] cell(self.board@, x2, y2) == if x2 < x && y2 == main_row {
                        Some((back_rank(x2), colour))
                    } else if x2 < x && y2 == pawn_row {
                        Some((Piece::Pawn, colour))
                    } else {
                        cell(b0, x2, y2)
                    },
        {
            let ghost prev = self.board@;
            self.board[x * 8 + main_row] = Some((back_rank_piece(x), colour));
            self.board[x * 8 + pawn_row] = Some((Piece::Pawn, colour));
            assert forall|x2: int, y2: int| on_board(x2, y2) implies #[trigger] cell(self.board@, x2, y2) == if x2
                < x + 1 && y2 == main_row {
                Some((back_rank(x2), colour))
            } else if x2 < x + 1 && y2 == pawn_row {
                Some((Piece::Pawn, colour))
            } else {
                cell(b0, x2, y2)
            } by {
                if x2 != x {
                    assert(x2 * 8 + y2 != x * 8 + main_row) by (nonlinear_arith)
                        requires
                            x2 != x,
                            0 <= y2 < 8,
                            0 <= main_row < 8,
                    ;
                    assert(x2 * 8 + y2 != x * 8 + pawn_row) by (nonlinear_arith)
                        requires
                            x2 != x,
                            0 <= y2 < 8,
                            0 <= pawn_row < 8,
                    ;
                    assert(cell(self.board@, x2, y2) == cell(prev, x2, y2));
                }
            }
        }
    }

    /// A game in the starting position, White to move.
    pub fn new() -> (g: Game)
        ensures
            g@.state == GameState::InProgress,
            g@.turn == Colour::White,
            !g@.move_made,
            g.wf(),
            forall|x: int, y: int| on_board(x, y) ==> #[trigger] cell(g@.board, x, y) == initial_cell(x, y),
    {
        let mut board: Vec<Occupant> = Vec::new();
        for i in 0..64usize
            invariant
                board@.len() == i,
                forall|j: int| 0 <= j < i ==> board@[j] is None,
        {
            board.push(None);
        }
        let mut game = Game { state: GameState::InProgress, board, turn: Colour::White, move_made: false };
        game.set_default_pieces(Colour::White, 0, 1);
        game.set_default_pieces(Colour::Black, 7, 6);
        game
    }

    /// Moves the piece on `from` to `to` if that is a legal move of the side to
    /// move, and returns the state that results; returns `None` and changes
    /// nothing if the move is refused. Once a game has ended in checkmate every
    /// request is refused and the state reads `GameOver`.
    pub fn make_move_at(&mut self, from: Square, to: Square) -> (r: Option<GameState>)
        requires
            old(self).wf(),
        ensures
            (final(self)@, r) == move_result(old(self)@, from, to),
            final(self).wf(),
    {
        if self.state == GameState::Checkmate || self.state == GameState::GameOver {
            self.state = GameState::GameOver;
            return None;
        }
        if self.move_made {
            return None;
        }
        if from.0 >= 8 || from.1 >= 8 {
            return None;
        }
        let ghost g0 = self@;
        let from_index = from.0 * 8 + from.1;
        let occupant = self.board[from_index];
        if !check_for_colour(occupant, self.turn) {
            return None;
        }
        let piece = occupant.unwrap();
        let available_moves = piece.0.get_available_moves(from, true, &mut self.board);
        proof {
            lemma_legal_moves_on_board(g0.board, from.0 as int, from.1 as int);
        }
        let n = available_moves.len();
        let mut found = false;
        let mut k: usize = 0;
        while k < n && !found
            invariant
                n == available_moves@.len(),
                k <= n,
                found ==> k > 0 && available_moves@[k - 1] == to,
                !found ==> forall|j: int| 0 <= j < k ==> available_moves@[j] != to,
            decreases n - k,
        {
            let m = available_moves[k];
            if m.0 == to.0 && m.1 == to.1 {
                found = true;
            }
            k = k + 1;
        }
        if !found {
            assert(!available_moves@.contains(to));
            return None;
        }
        assert(available_moves@.contains(to));
        assert(square_on_board(to));
        let to_index = to.0 * 8 + to.1;
        self.board[to_index] = occupant;
        self.board[from_index] = None;
        assert(self.board@ == apply_move(g0.board, from, to));
        let next = piece.1.other();
        if check_for_checked(next, &self.board) {
            if check_for_checkmate(next, &mut self.board) {
                self.state = GameState::Checkmate;
            } else {
                self.state = GameState::Check;
            }
        } else {
            self.state = GameState::InProgress;
        }
        let last: usize = if piece.1 == Colour::White {
            7
        } else {
            0
        };
        let should_promote = piece.0 == Piece::Pawn && to.1 == last;
        if should_promote {
            self.move_made = true;
        } else {
            self.change_turn();
        }
        Some(self.state)
    }

    /// Moves a piece between two named squares (such as `e2` and `e4`). A name
    /// that is not a square refuses the request; otherwise this is `make_move_at`.
    pub fn make_move(&mut self, from: String, to: String) -> (r: Option<GameState>)
        requires
            old(self).wf(),
        ensures
            final(self).wf(),
            match (parse_square(from@), parse_square(to@)) {
                (Some(f), Some(t)) => (final(self)@, r) == move_result(old(self)@, f, t),
                _ => r is None && final(self)@ == rejected(old(self)@),
            },
    {
        let from_square = parse_position(&from);
        let to_square = parse_position(&to);
        match (from_square, to_square) {
            (Some(f), Some(t)) => self.make_move_at(f, t),
            _ => {
                if self.state == GameState::Checkmate || self.state == GameState::GameOver {
                    self.state = GameState::GameOver;
                }
                None
            },
        }
    }

    /// Replaces the first pawn of `colour` on rank `row`, in file order, by a
    /// `piece` of `colour`; returns whether there was one.
    fn promote_piece(&mut self, piece: Piece, row: usize, colour: Colour) -> (r: bool)
        requires
            old(self).wf(),
            row < 8,
        ensures
            final(self).wf(),
            final(self)@.state == old(self)@.state,
            final(self)@.turn == old(self)@.turn,
            final(self)@.move_made == old(self)@.move_made,
            match first_pawn_from(old(self)@.board, row as int, colour, 0) {
                Some(x) => r && final(self)@.board == old(self)@.board.update(
                    x * 8 + row,
                    Some((piece, colour)),
                ),
                None => !r && final(self)@.board == old(self)@.board,
            },
    {
        let ghost b0 = self.board@;
        let mut i: usize = 0;
        while i < 8
            invariant
                self.board@ == b0,
                self@ == old(self)@,
                board_wf(b0),
                row < 8,
                i <= 8,
                first_pawn_from(b0, row as int, colour, 0) == first_pawn_from(b0, row as int, colour, i as int),
            decreases 8 - i,
        {
            if let Some(checked) = self.board[i * 8 + row] {
                if checked.0 == Piece::Pawn && checked.1 == colour {
                    assert(cell(b0, i as int, row as int) == Some((Piece::Pawn, colour)));
                    self.board[i * 8 + row] = Some((piece, colour));
                    return true;
                }
            }
            i = i + 1;
        }
        false
    }

    /// Completes a pending promotion: with a pawn waiting on the far rank and a
    /// choice of Queen, Rook, Bishop or Knight, the pawn becomes that piece and
    /// the turn passes on. Otherwise nothing changes.
    pub fn promote(&mut self, piece: Piece)
        requires
            old(self).wf(),
        ensures
            final(self).wf(),
            final(self)@ == promotion_result(old(self)@, piece),
    {
        let choice = match piece {
            Piece::Queen | Piece::Rook | Piece::Bishop | Piece::Knight => true,
            _ => false,
        };
        if !choice || !self.move_made {
            return;
        }
        let row: usize = match self.turn {
            Colour::White => 7,
            Colour::Black => 0,
        };
        let turn = self.turn;
        if self.promote_piece(piece, row, turn) {
            self.change_turn();
        }
    }

    /// Completes a pending promotion with the piece named `piece`: one of
    /// `Queen`, `Bishop`, `Knight` or `Rook`. Any other name changes nothing.
    pub fn set_promotion(&mut self, piece: String)
        requires
            old(self).wf(),
        ensures
            final(self).wf(),
            final(self)@ == match promotion_named(piece@) {
                Some(p) => promotion_result(old(self)@, p),
                None => old(self)@,
            },
    {
        match parse_piece(&piece) {
            Some(p) => self.promote(p),
            None => {},
        }
    }

    /// The current state of the game.
    pub fn get_game_state(&self) -> (r: GameState)
        ensures
            r == self@.state,
    {
        self.state
    }

    /// The legal moves of the piece on `position` if it belongs to the side to
    /// move, else `None`. The game is left as it was.
    pub fn possible_moves_at(&mut self, position: Square) -> (r: Option<Vec<Square>>)
        requires
            old(self).wf(),
        ensures
            final(self)@ == old(self)@,
            match r {
                Some(v) => possible_moves(old(self)@, position) == Some(v@),
                None => possible_moves(old(self)@, position) is None,
            },
    {
        if position.0 >= 8 || position.1 >= 8 {
            return None;
        }
        let occupant = self.board[position.0 * 8 + position.1];
        if !check_for_colour(occupant, self.turn) {
            return None;
        }
        let piece = occupant.unwrap();
        Some(piece.0.get_available_moves(position, true, &mut self.board))
    }

    /// The names (such as `e4`) of the legal moves of the piece on the square
    /// named `position`, if it belongs to the side to move, else `None`. The
    /// game is left as it was.
    pub fn get_possible_moves(&mut self, position: String) -> (r: Option<Vec<String>>)
        requires
            old(self).wf(),
        ensures
            final(self)@ == old(self)@,
            match parse_square(position@) {
                Some(sq) => match (possible_moves(old(self)@, sq), r) {
                    (Some(moves), Some(names)) => names@.len() == moves.len() && forall|k: int|
                        0 <= k < moves.len() ==> #[trigger] names@[k]@ == square_name(moves[k]),
                    (None, None) => true,
                    _ => false,
                },
                None => r is None,
            },
    {
        let square = match parse_position(&position) {
            Some(sq) => sq,
            None => {
                return None;
            },
        };
        let moves = match self.possible_moves_at(square) {
            Some(v) => v,
            None => {
                return None;
            },
        };
        proof {
            lemma_legal_moves_on_board(self@.board, square.0 as int, square.1 as int);
        }
        let mut formatted_moves: Vec<String> = Vec::new();
        let n = moves.len();
        for i in 0..n
            invariant
                n == moves@.len(),
                all_on_board(moves@),
                formatted_moves@.len() == i,
                forall|k: int| 0 <= k < i ==> #[trigger] formatted_moves@[k]@ == square_name(moves@[k]),
        {
            let m = moves[i];
            assert(square_on_board(moves@[i as int]));
            formatted_moves.push(format_position(m));
        }
        Some(formatted_moves)
    }

    /// The side to move.
    pub fn turn(&self) -> (r: Colour)
        ensures
            r == self@.turn,
    {
        self.turn
    }

    /// Whether a pawn waits on the far rank for its promotion.
    pub fn is_promotion_pending(&self) -> (r: bool)
        ensures
            r == self@.move_made,
    {
        self.move_made
    }

    /// What stands on square (`x`, `y`); nothing off the board.
    pub fn piece_at(&self, x: usize, y: usize) -> (r: Occupant)
        requires
            self.wf(),
        ensures
            r == if on_board(x as int, y as int) {
                cell(self@.board, x as int, y as int)
            } else {
                None
            },
    {
        if x >= 8 || y >= 8 {
            return None;
        }
        self.board[x * 8 + y]
    }
}

/// Whether `occupant` is a piece of the side `turn`.
fn check_for_colour(occupant: Occupant, turn: Colour) -> (r: bool)
    ensures
        r == (occupant matches Some(o) && o.1 == turn),
{
    match occupant {
        Some(o) => o.1 == turn,
        None => false,
    }
}

/// The piece that starts on file `x` of a back rank.
fn back_rank_piece(x: usize) -> (r: Piece)
    requires
        x < 8,
    ensures
        r == back_rank(x as int),
{
    match x {
        0 => Piece::Rook,
        1 => Piece::Knight,
        2 => Piece::Bishop,
        3 => Piece::Queen,
        4 => Piece::King,
        5 => Piece::Bishop,
        6 => Piece::Knight,
        _ => Piece::Rook,
    }
}

} // verus!
