use vstd::prelude::*;
use crate::board::{
    apply_move, count_side, board_wf, cell, in_check, is_checkmate, legal_filter, legal_moves, on_board,
    pawn_direction, pawn_moves, piece_moves, target, Occupant, Square,
};
use crate::check::lemma_legal_filter_sound;
use crate::game::{
    first_pawn_from, initial_cell, is_terminal, last_rank, move_result, promotes, promotion_choice,
    promotion_result, GameModel,
};
use crate::types::{opponent, Colour, GameState, MovementMode, Piece};

verus! {

/// Legality closure: making any legal move of the piece on (x, y) leaves the
/// king of that piece's side unattacked.
pub proof fn law_legal_moves_keep_king_safe(b: Seq<Occupant>, x: int, y: int, k: int)
    requires
        board_wf(b),
        on_board(x, y),
        cell(b, x, y) is Some,
        0 <= k < legal_moves(b, x, y).len(),
    ensures
        !in_check(apply_move(b, (x as usize, y as usize), legal_moves(b, x, y)[k]), cell(b, x, y).unwrap().1),
{
    let o = cell(b, x, y).unwrap();
    lemma_legal_filter_sound(b, (x as usize, y as usize), o.1, piece_moves(b, o.0, x, y, o.1));
    assert(legal_moves(b, x, y)[k] == legal_filter(
        b,
        (x as usize, y as usize),
        o.1,
        piece_moves(b, o.0, x, y, o.1),
    )[k]);
}

/// An accepted move never leaves the mover's own king attacked.
pub proof fn law_accepted_move_keeps_king_safe(g: GameModel, from: Square, to: Square)
    requires
        board_wf(g.board),
        move_result(g, from, to).1 is Some,
    ensures
        !in_check(move_result(g, from, to).0.board, g.turn),
{
    let fx = from.0 as int;
    let fy = from.1 as int;
    let moves = legal_moves(g.board, fx, fy);
    let k = choose|k: int| 0 <= k < moves.len() && moves[k] == to;
    law_legal_moves_keep_king_safe(g.board, fx, fy, k);
}

/// Turn alternation: an accepted move that brings no pawn to its far rank
/// passes the turn to the other side exactly once; one that does keeps the
/// turn and leaves a promotion pending.
pub proof fn law_turn_alternation(g: GameModel, from: Square, to: Square)
    requires
        move_result(g, from, to).1 is Some,
    ensures
        !promotes(g, from, to) ==> move_result(g, from, to).0.turn == opponent(g.turn)
            && !move_result(g, from, to).0.move_made,
        promotes(g, from, to) ==> move_result(g, from, to).0.turn == g.turn && move_result(
            g,
            from,
            to,
        ).0.move_made,
{
}

/// While a promotion is pending, every move request is refused and changes
/// nothing.
pub proof fn law_pending_promotion_refuses_moves(g: GameModel, from: Square, to: Square)
    requires
        g.move_made,
        !is_terminal(g),
    ensures
        move_result(g, from, to).1 is None,
        move_result(g, from, to).0 == g,
{
}

proof fn lemma_target_rank(b: Seq<Occupant>, x: int, y: int, colour: Colour, mode: MovementMode, k: int)
    requires
        0 <= k < target(b, x, y, colour, mode).len(),
    ensures
        target(b, x, y, colour, mode)[k].1 as int == y,
{
}

/// A pawn's candidate moves all leave its rank.
proof fn lemma_pawn_moves_leave_rank(b: Seq<Occupant>, x: int, y: int, colour: Colour, k: int)
    requires
        0 <= k < pawn_moves(b, x, y, colour).len(),
    ensures
        pawn_moves(b, x, y, colour)[k].1 as int != y,
{
    let dir = pawn_direction(colour);
    let f = target(b, x, y + dir, colour, MovementMode::OnlyEmpty);
    let l = target(b, x - 1, y + dir, colour, MovementMode::OnlyDifferent);
    let r = target(b, x + 1, y + dir, colour, MovementMode::OnlyDifferent);
    let d2 = target(b, x, y + 2 * dir, colour, MovementMode::OnlyEmpty);
    let d: Seq<Square> = if f.len() > 0 && y == crate::board::pawn_home_rank(colour) {
        d2
    } else {
        seq![]
    };
    let s = pawn_moves(b, x, y, colour);
    assert(s == f + l + r + d);
    if k < f.len() {
        assert(s[k] == f[k]);
        lemma_target_rank(b, x, y + dir, colour, MovementMode::OnlyEmpty, k);
    } else if k < f.len() + l.len() {
        assert(s[k] == l[k - f.len()]);
        lemma_target_rank(b, x - 1, y + dir, colour, MovementMode::OnlyDifferent, k - f.len());
    } else if k < f.len() + l.len() + r.len() {
        assert(s[k] == r[k - f.len() - l.len()]);
        lemma_target_rank(b, x + 1, y + dir, colour, MovementMode::OnlyDifferent, k - f.len() - l.len());
    } else {
        assert(s[k] == d[k - f.len() - l.len() - r.len()]);
        lemma_target_rank(b, x, y + 2 * dir, colour, MovementMode::OnlyEmpty, k - f.len() - l.len() - r.len());
    }
}

/// A pawn of `side` on rank `row` at file `x`, at or after `i`, is found by the
/// scan from `i`.
proof fn lemma_first_pawn_found(b: Seq<Occupant>, row: int, side: Colour, i: int, x: int)
    requires
        0 <= i <= x < 8,
        cell(b, x, row) == Some((Piece::Pawn, side)),
    ensures
        first_pawn_from(b, row, side, i) matches Some(f) && i <= f <= x && 0 <= f < 8,
    decreases x - i,
{
    if i < x && cell(b, i, row) != Some((Piece::Pawn, side)) {
        lemma_first_pawn_found(b, row, side, i + 1, x);
    }
}

/// A promoting move followed by a valid promotion choice: the pawn on the far
/// rank becomes the chosen piece, and the turn passes to the other side.
pub proof fn law_promotion_completes_turn(g: GameModel, from: Square, to: Square, piece: Piece)
    requires
        board_wf(g.board),
        move_result(g, from, to).1 is Some,
        promotes(g, from, to),
        promotion_choice(piece),
    ensures
        ({
            let pending = move_result(g, from, to).0;
            let done = promotion_result(pending, piece);
            &&& done.turn == opponent(g.turn)
            &&& !done.move_made
            &&& exists|x: int|
                0 <= x < 8 && cell(done.board, x, last_rank(g.turn)) == Some((piece, g.turn))
        }),
{
    let o = cell(g.board, from.0 as int, from.1 as int).unwrap();
    let pending = move_result(g, from, to).0;
    let row = last_rank(g.turn);
    let fx = from.0 as int;
    let fy = from.1 as int;
    let moves = legal_moves(g.board, fx, fy);
    let cands = piece_moves(g.board, o.0, fx, fy, o.1);
    lemma_legal_filter_sound(g.board, (fx as usize, fy as usize), o.1, cands);
    let k = choose|k: int| 0 <= k < moves.len() && moves[k] == to;
    assert(cands.contains(moves[k]));
    let j = choose|j: int| 0 <= j < cands.len() && cands[j] == to;
    lemma_pawn_moves_leave_rank(g.board, fx, fy, o.1, j);
    crate::check::lemma_legal_moves_on_board(g.board, fx, fy);
    assert(crate::board::square_on_board(moves[k]));
    assert(to.1 as int != fy);
    assert(to.0 * 8 + to.1 != from.0 * 8 + from.1);
    assert(cell(pending.board, to.0 as int, row) == Some((Piece::Pawn, g.turn)));
    lemma_first_pawn_found(pending.board, row, g.turn, 0, to.0 as int);
    let f = first_pawn_from(pending.board, row, g.turn, 0).unwrap();
    let done = promotion_result(pending, piece);
    assert(cell(done.board, f, row) == Some((piece, g.turn)));
}

/// Checkmate terminality: a move that checkmates the side to move next makes
/// the game read `Checkmate`; from then on every move request is refused and
/// the game reads `GameOver`.
pub proof fn law_checkmate_is_terminal(
    g: GameModel,
    from: Square,
    to: Square,
    next_from: Square,
    next_to: Square,
    later_from: Square,
    later_to: Square,
)
    requires
        move_result(g, from, to).1 == Some(GameState::Checkmate),
    ensures
        is_checkmate(move_result(g, from, to).0.board, opponent(g.turn)),
        ({
            let ended = move_result(g, from, to).0;
            let next = move_result(ended, next_from, next_to);
            let later = move_result(next.0, later_from, later_to);
            &&& next.1 is None
            &&& next.0.state == GameState::GameOver
            &&& next.0.board == ended.board
            &&& later.1 is None
            &&& later.0 == next.0
        }),
{
}

/// Each file of the starting position holds two pieces of each side.
proof fn lemma_initial_file_count(b: Seq<Occupant>, side: Colour, x: int)
    requires
        board_wf(b),
        0 <= x < 8,
        forall|x2: int, y2: int| on_board(x2, y2) ==> #[trigger] cell(b, x2, y2) == initial_cell(x2, y2),
    ensures
        count_side(b, side, 8 * x + 8) == count_side(b, side, 8 * x) + 2,
{
    reveal_with_fuel(count_side, 9);
    assert(cell(b, x, 0) == initial_cell(x, 0));
    assert(cell(b, x, 1) == initial_cell(x, 1));
    assert(cell(b, x, 2) == initial_cell(x, 2));
    assert(cell(b, x, 3) == initial_cell(x, 3));
    assert(cell(b, x, 4) == initial_cell(x, 4));
    assert(cell(b, x, 5) == initial_cell(x, 5));
    assert(cell(b, x, 6) == initial_cell(x, 6));
    assert(cell(b, x, 7) == initial_cell(x, 7));
}

proof fn lemma_initial_files_count(b: Seq<Occupant>, side: Colour, x: int)
    requires
        board_wf(b),
        0 <= x <= 8,
        forall|x2: int, y2: int| on_board(x2, y2) ==> #[trigger] cell(b, x2, y2) == initial_cell(x2, y2),
    ensures
        count_side(b, side, 8 * x) == 2 * x,
    decreases x,
{
    if x > 0 {
        lemma_initial_files_count(b, side, x - 1);
        lemma_initial_file_count(b, side, x - 1);
    }
}

/// The starting position holds sixteen pieces of each side.
pub proof fn law_initial_piece_count(b: Seq<Occupant>, side: Colour)
    requires
        board_wf(b),
        forall|x: int, y: int| on_board(x, y) ==> #[trigger] cell(b, x, y) == initial_cell(x, y),
    ensures
        count_side(b, side, 64) == 16,
{
    lemma_initial_files_count(b, side, 8);
}

} // verus!
