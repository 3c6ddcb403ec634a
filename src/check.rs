use vstd::prelude::*;
use crate::board::{
    apply_move, attacks_king, board_wf, candidate_moves, cell, hits_king, in_check, is_checkmate, is_king_of,
    legal_filter, legal_moves, no_legal_moves, offset_moves, on_board, piece_moves, ray,
    square_on_board, target, Occupant, Square,
};
use crate::types::{Colour, MovementMode, Piece};

verus! {

/// Whether every square of `s` is on the board.
pub open spec fn all_on_board(s: Seq<Square>) -> bool {
    forall|k: int| 0 <= k < s.len() ==> square_on_board(#[trigger] s[k])
}

proof fn lemma_target_on_board(b: Seq<Occupant>, x: int, y: int, colour: Colour, mode: MovementMode)
    ensures
        all_on_board(target(b, x, y, colour, mode)),
{
}

proof fn lemma_offset_moves_on_board(b: Seq<Occupant>, x: int, y: int, offs: Seq<(i32, i32)>, colour: Colour)
    ensures
        all_on_board(offset_moves(b, x, y, offs, colour)),
    decreases offs.len(),
{
    if offs.len() > 0 {
        lemma_offset_moves_on_board(b, x, y, offs.drop_last(), colour);
        lemma_target_on_board(b, x + offs.last().0, y + offs.last().1, colour, MovementMode::Both);
    }
}

proof fn lemma_ray_on_board(b: Seq<Occupant>, x: int, y: int, dx: int, dy: int, colour: Colour, steps: nat)
    ensures
        all_on_board(ray(b, x, y, dx, dy, colour, steps)),
    decreases steps,
{
    if steps > 0 && on_board(x, y) {
        lemma_ray_on_board(b, x + dx, y + dy, dx, dy, colour, (steps - 1) as nat);
    }
}

proof fn lemma_concat_on_board(a: Seq<Square>, b: Seq<Square>)
    requires
        all_on_board(a),
        all_on_board(b),
    ensures
        all_on_board(a + b),
{
    assert forall|k: int| 0 <= k < (a + b).len() implies square_on_board(#[trigger] (a + b)[k]) by {
        if k >= a.len() {
            assert((a + b)[k] == b[k - a.len()]);
        }
    }
}

proof fn lemma_straight_on_board(b: Seq<Occupant>, x: int, y: int, colour: Colour)
    ensures
        all_on_board(crate::board::straight_moves(b, x, y, colour)),
{
    let l = ray(b, x - 1, y, -1, 0, colour, 7);
    let r = ray(b, x + 1, y, 1, 0, colour, 7);
    let d = ray(b, x, y - 1, 0, -1, colour, 7);
    let u = ray(b, x, y + 1, 0, 1, colour, 7);
    lemma_ray_on_board(b, x - 1, y, -1, 0, colour, 7);
    lemma_ray_on_board(b, x + 1, y, 1, 0, colour, 7);
    lemma_ray_on_board(b, x, y - 1, 0, -1, colour, 7);
    lemma_ray_on_board(b, x, y + 1, 0, 1, colour, 7);
    lemma_concat_on_board(l, r);
    lemma_concat_on_board(l + r, d);
    lemma_concat_on_board(l + r + d, u);
}

proof fn lemma_diagonal_on_board(b: Seq<Occupant>, x: int, y: int, colour: Colour)
    ensures
        all_on_board(crate::board::diagonal_moves(b, x, y, colour)),
{
    let ul = ray(b, x - 1, y + 1, -1, 1, colour, 7);
    let ur = ray(b, x + 1, y + 1, 1, 1, colour, 7);
    let dl = ray(b, x - 1, y - 1, -1, -1, colour, 7);
    let dr = ray(b, x + 1, y - 1, 1, -1, colour, 7);
    lemma_ray_on_board(b, x - 1, y + 1, -1, 1, colour, 7);
    lemma_ray_on_board(b, x + 1, y + 1, 1, 1, colour, 7);
    lemma_ray_on_board(b, x - 1, y - 1, -1, -1, colour, 7);
    lemma_ray_on_board(b, x + 1, y - 1, 1, -1, colour, 7);
    lemma_concat_on_board(ul, ur);
    lemma_concat_on_board(ul + ur, dl);
    lemma_concat_on_board(ul + ur + dl, dr);
}

proof fn lemma_pawn_on_board(b: Seq<Occupant>, x: int, y: int, colour: Colour)
    ensures
        all_on_board(crate::board::pawn_moves(b, x, y, colour)),
{
    let dir = crate::board::pawn_direction(colour);
    let f = target(b, x, y + dir, colour, MovementMode::OnlyEmpty);
    let l = target(b, x - 1, y + dir, colour, MovementMode::OnlyDifferent);
    let r = target(b, x + 1, y + dir, colour, MovementMode::OnlyDifferent);
    let d2 = target(b, x, y + 2 * dir, colour, MovementMode::OnlyEmpty);
    let d: Seq<Square> = if f.len() > 0 && y == crate::board::pawn_home_rank(colour) {
        d2
    } else {
        seq![]
    };
    lemma_target_on_board(b, x, y + 2 * dir, colour, MovementMode::OnlyEmpty);
    lemma_concat_on_board(f, l);
    lemma_concat_on_board(f + l, r);
    lemma_concat_on_board(f + l + r, d);
}

/// Every candidate move of a piece lands on the board.
pub proof fn lemma_piece_moves_on_board(b: Seq<Occupant>, piece: Piece, x: int, y: int, colour: Colour)
    ensures
        all_on_board(piece_moves(b, piece, x, y, colour)),
{
    match piece {
        Piece::King => lemma_offset_moves_on_board(b, x, y, crate::board::king_offsets(), colour),
        Piece::Knight => lemma_offset_moves_on_board(b, x, y, crate::board::knight_offsets(), colour),
        Piece::Rook => lemma_straight_on_board(b, x, y, colour),
        Piece::Bishop => lemma_diagonal_on_board(b, x, y, colour),
        Piece::Queen => {
            lemma_straight_on_board(b, x, y, colour);
            lemma_diagonal_on_board(b, x, y, colour);
            lemma_concat_on_board(
                crate::board::straight_moves(b, x, y, colour),
                crate::board::diagonal_moves(b, x, y, colour),
            );
        },
        Piece::Pawn => lemma_pawn_on_board(b, x, y, colour),
    }
}

/// Whether `side`'s king is attacked by a candidate move of any piece of the
/// other side.
pub fn check_for_checked(side: Colour, board: &Vec<Occupant>) -> (r: bool)
    requires
        board_wf(board@),
    ensures
        r == in_check(board@, side),
{
    let mut x: usize = 0;
    while x < 8
        invariant
            board_wf(board@),
            x <= 8,
            forall|x2: int, y2: int| 0 <= x2 < x && 0 <= y2 < 8 ==> !#[trigger] attacks_king(board@, x2, y2, side),
        decreases 8 - x,
    {
        let mut y: usize = 0;
        while y < 8
            invariant
                board_wf(board@),
                x < 8,
                y <= 8,
                forall|x2: int, y2: int| 0 <= x2 < x && 0 <= y2 < 8 ==> !#[trigger] attacks_king(board@, x2, y2, side),
                forall|y2: int| 0 <= y2 < y ==> !#[trigger] attacks_king(board@, x as int, y2, side),
            decreases 8 - y,
        {
            if let Some(attacker) = board[x * 8 + y] {
                if attacker.1 != side {
                    assert(cell(board@, x as int, y as int) == Some(attacker));
                    let moves = attacker.0.get_candidate_moves((x, y), attacker.1, board);
                    proof {
                        lemma_piece_moves_on_board(board@, attacker.0, x as int, y as int, attacker.1);
                    }
                    let n = moves.len();
                    let mut k: usize = 0;
                    while k < n
                        invariant
                            board_wf(board@),
                            n == moves@.len(),
                            k <= n,
                            all_on_board(moves@),
                            x < 8,
                            y < 8,
                            attacker.1 != side,
                            cell(board@, x as int, y as int) == Some(attacker),
                            moves@ == piece_moves(board@, attacker.0, x as int, y as int, attacker.1),
                            forall|k2: int| 0 <= k2 < k ==> !is_king_of(board@, #[trigger] moves@[k2], side),
                        decreases n - k,
                    {
                        let m = moves[k];
                        assert(square_on_board(moves@[k as int]));
                        if let Some(hit) = board[m.0 * 8 + m.1] {
                            if hit.1 == side && hit.0 == Piece::King {
                                assert(cell(board@, x as int, y as int) == Some(attacker));
                                assert(is_king_of(board@, moves@[k as int], side));
                                assert(hits_king(board@, moves@, side));
                                assert(attacks_king(board@, x as int, y as int, side));
                                return true;
                            }
                        }
                        k = k + 1;
                    }
                }
            }
            y = y + 1;
        }
        x = x + 1;
    }
    false
}

/// Each move that the legal filter keeps is one of the candidates, and leaves
/// the mover's king unattacked.
pub proof fn lemma_legal_filter_sound(b: Seq<Occupant>, from: Square, colour: Colour, cands: Seq<Square>)
    ensures
        forall|k: int|
            0 <= k < legal_filter(b, from, colour, cands).len() ==> {
                let m = #[trigger] legal_filter(b, from, colour, cands)[k];
                cands.contains(m) && !in_check(apply_move(b, from, m), colour)
            },
    decreases cands.len(),
{
    if cands.len() > 0 {
        let rest = cands.drop_last();
        lemma_legal_filter_sound(b, from, colour, rest);
        let r = legal_filter(b, from, colour, cands);
        assert forall|k: int| 0 <= k < r.len() implies ({
            let m = #[trigger] r[k];
            cands.contains(m) && !in_check(apply_move(b, from, m), colour)
        }) by {
            let rr = legal_filter(b, from, colour, rest);
            if k < rr.len() {
                assert(r[k] == rr[k]);
                let j = choose|j: int| 0 <= j < rest.len() && rest[j] == rr[k];
                assert(cands[j] == rest[j]);
            } else {
                assert(r[k] == cands.last());
                assert(cands[cands.len() - 1] == cands.last());
            }
        }
    }
}

/// Every legal move lands on the board.
pub proof fn lemma_legal_moves_on_board(b: Seq<Occupant>, x: int, y: int)
    ensures
        all_on_board(legal_moves(b, x, y)),
{
    if let Some(o) = cell(b, x, y) {
        let cands = piece_moves(b, o.0, x, y, o.1);
        lemma_piece_moves_on_board(b, o.0, x, y, o.1);
        lemma_legal_filter_sound(b, (x as usize, y as usize), o.1, cands);
    }
}

impl Piece {
    /// The moves of this piece, standing on `position`: its candidate moves, and
    /// with `check_for_check` only those that leave its own king unattacked.
    /// Each candidate is tried on `board` and taken back, so the board is left
    /// as it was.
    pub fn get_available_moves(
        &self,
        position: Square,
        check_for_check: bool,
        board: &mut Vec<Occupant>,
    ) -> (r: Vec<Square>)
        requires
            board_wf(old(board)@),
            square_on_board(position),
            cell(old(board)@, position.0 as int, position.1 as int) matches Some(o) && o.0 == *self,
        ensures
            final(board)@ == old(board)@,
            r@ == if check_for_check {
                legal_moves(old(board)@, position.0 as int, position.1 as int)
            } else {
                candidate_moves(old(board)@, position.0 as int, position.1 as int)
            },
    {
        let ghost b0 = board@;
        let from = position.0 * 8 + position.1;
        let piece = board[from];
        let colour = match piece {
            Some(o) => o.1,
            None => Colour::White,
        };
        let candidates = self.get_candidate_moves(position, colour, board);
        if !check_for_check {
            return candidates;
        }
        proof {
            lemma_piece_moves_on_board(b0, *self, position.0 as int, position.1 as int, colour);
        }
        let mut valid_moves: Vec<Square> = Vec::new();
        let n = candidates.len();
        for i in 0..n
            invariant
                n == candidates@.len(),
                board@ == b0,
                board_wf(b0),
                square_on_board(position),
                from == position.0 * 8 + position.1,
                piece == b0[from as int],
                all_on_board(candidates@),
                valid_moves@ == legal_filter(b0, position, colour, candidates@.take(i as int)),
        {
            let to = candidates[i];
            assert(square_on_board(candidates@[i as int]));
            let to_index = to.0 * 8 + to.1;
            let captured = board[to_index];
            board[to_index] = piece;
            board[from] = None;
            assert(board@ == apply_move(b0, position, to));
            let self_checked = check_for_checked(colour, board);
            board[from] = piece;
            board[to_index] = captured;
            assert(board@ =~= b0);
            assert(candidates@.take(i + 1).drop_last() =~= candidates@.take(i as int));
            if !self_checked {
                valid_moves.push(to);
            }
        }
        assert(candidates@.take(n as int) =~= candidates@);
        valid_moves
    }
}

/// Whether `side` is checkmated: its king is attacked and none of its pieces
/// has a legal move. The board is left as it was.
pub fn check_for_checkmate(side: Colour, board: &mut Vec<Occupant>) -> (r: bool)
    requires
        board_wf(old(board)@),
    ensures
        final(board)@ == old(board)@,
        r == is_checkmate(old(board)@, side),
{
    let ghost b0 = board@;
    if !check_for_checked(side, board) {
        return false;
    }
    let mut x: usize = 0;
    while x < 8
        invariant
            board@ == b0,
            b0 == old(board)@,
            board_wf(b0),
            in_check(b0, side),
            x <= 8,
            forall|x2: int, y2: int|
                0 <= x2 < x && 0 <= y2 < 8 && #[trigger] cell(b0, x2, y2) is Some && cell(b0, x2, y2).unwrap().1
                    == side ==> legal_moves(b0, x2, y2).len() == 0,
        decreases 8 - x,
    {
        let mut y: usize = 0;
        while y < 8
            invariant
                board@ == b0,
                b0 == old(board)@,
                board_wf(b0),
                in_check(b0, side),
                x < 8,
                y <= 8,
                forall|x2: int, y2: int|
                    0 <= x2 < x && 0 <= y2 < 8 && #[trigger] cell(b0, x2, y2) is Some && cell(
                        b0,
                        x2,
                        y2,
                    ).unwrap().1 == side ==> legal_moves(b0, x2, y2).len() == 0,
                forall|y2: int|
                    0 <= y2 < y && #[trigger] cell(b0, x as int, y2) is Some && cell(b0, x as int, y2).unwrap().1
                        == side ==> legal_moves(b0, x as int, y2).len() == 0,
            decreases 8 - y,
        {
            if let Some(o) = board[x * 8 + y] {
                if o.1 == side {
                    let moves = o.0.get_available_moves((x, y), true, board);
                    if moves.len() > 0 {
                        assert(cell(b0, x as int, y as int) == Some(o));
                        assert(!no_legal_moves(b0, side));
                        return false;
                    }
                }
            }
            y = y + 1;
        }
        x = x + 1;
    }
    true
}

} // verus!
