use vstd::prelude::*;
use crate::types::{Colour, MovementMode, Piece};

verus! {

/// What stands on a square: nothing, or a piece of a side.
pub type Occupant = Option<(Piece, Colour)>;

/// A square as (file, rank), both zero-based.
pub type Square = (usize, usize);

/// A board is held as 64 occupants, file-major: square (x, y) is at
/// index `x * 8 + y`.
pub open spec fn board_wf(b: Seq<Occupant>) -> bool {
    b.len() == 64
}

pub open spec fn on_board(x: int, y: int) -> bool {
    0 <= x < 8 && 0 <= y < 8
}

pub open spec fn square_on_board(s: Square) -> bool {
    on_board(s.0 as int, s.1 as int)
}

/// The occupant of square (x, y).
pub open spec fn cell(b: Seq<Occupant>, x: int, y: int) -> Occupant {
    b[x * 8 + y]
}

/// The board after the occupant of `from` moved onto `to`; whatever stood on
/// `to` is gone.
pub open spec fn apply_move(b: Seq<Occupant>, from: Square, to: Square) -> Seq<Occupant> {
    b.update(to.0 * 8 + to.1, b[from.0 * 8 + from.1]).update(from.0 * 8 + from.1, None)
}

/// Whether (x, y) is a square on which a piece of `colour` may land under `mode`.
pub open spec fn target_ok(b: Seq<Occupant>, x: int, y: int, colour: Colour, mode: MovementMode) -> bool {
    on_board(x, y) && match mode {
        MovementMode::OnlyEmpty => cell(b, x, y) is None,
        MovementMode::OnlyDifferent => match cell(b, x, y) {
            Some(o) => o.1 != colour,
            None => false,
        },
        MovementMode::Both => match cell(b, x, y) {
            Some(o) => o.1 != colour,
            None => true,
        },
    }
}

/// The square (x, y) as a one-element sequence if it is a target, else nothing.
pub open spec fn target(b: Seq<Occupant>, x: int, y: int, colour: Colour, mode: MovementMode) -> Seq<Square> {
    if target_ok(b, x, y, colour, mode) {
        seq![(x as usize, y as usize)]
    } else {
        seq![]
    }
}

pub open spec fn king_offsets() -> Seq<(i32, i32)> {
    seq![(-1i32, 0i32), (-1i32, 1i32), (0i32, 1i32), (1i32, 1i32), (1i32, 0i32), (1i32, -1i32), (0i32, -1i32), (-1i32, -1i32)]
}

pub open spec fn knight_offsets() -> Seq<(i32, i32)> {
    seq![(-2i32, 1i32), (-1i32, 2i32), (1i32, 2i32), (2i32, 1i32), (2i32, -1i32), (1i32, -2i32), (-1i32, -2i32), (-2i32, -1i32)]
}

/// The squares at the given offsets from (x, y), in order, that are empty or
/// held by the other side.
pub open spec fn offset_moves(b: Seq<Occupant>, x: int, y: int, offs: Seq<(i32, i32)>, colour: Colour) -> Seq<Square>
    decreases offs.len(),
{
    if offs.len() == 0 {
        seq![]
    } else {
        offset_moves(b, x, y, offs.drop_last(), colour) + target(
            b,
            x + offs.last().0,
            y + offs.last().1,
            colour,
            MovementMode::Both,
        )
    }
}

/// A ray that starts at (x, y) and steps by (dx, dy), visiting at most `steps`
/// squares: empty squares are taken and the walk goes on; the first occupied
/// square ends it, and is taken only if the other side holds it.
pub open spec fn ray(b: Seq<Occupant>, x: int, y: int, dx: int, dy: int, colour: Colour, steps: nat) -> Seq<Square>
    decreases steps,
{
    if steps == 0 || !on_board(x, y) {
        seq![]
    } else {
        match cell(b, x, y) {
            None => seq![(x as usize, y as usize)] + ray(b, x + dx, y + dy, dx, dy, colour, (steps - 1) as nat),
            Some(o) => if o.1 != colour {
                seq![(x as usize, y as usize)]
            } else {
                seq![]
            },
        }
    }
}

/// The ray from (x, y) in direction (dx, dy), the origin excluded. No ray on the
/// board is longer than seven squares.
pub open spec fn ray_from(b: Seq<Occupant>, x: int, y: int, dx: int, dy: int, colour: Colour) -> Seq<Square> {
    ray(b, x + dx, y + dy, dx, dy, colour, 7)
}

/// Rook moves: left, right, down, up.
pub open spec fn straight_moves(b: Seq<Occupant>, x: int, y: int, colour: Colour) -> Seq<Square> {
    ray_from(b, x, y, -1, 0, colour) + ray_from(b, x, y, 1, 0, colour) + ray_from(b, x, y, 0, -1, colour)
        + ray_from(b, x, y, 0, 1, colour)
}

/// Bishop moves: up-left, up-right, down-left, down-right.
pub open spec fn diagonal_moves(b: Seq<Occupant>, x: int, y: int, colour: Colour) -> Seq<Square> {
    ray_from(b, x, y, -1, 1, colour) + ray_from(b, x, y, 1, 1, colour) + ray_from(b, x, y, -1, -1, colour)
        + ray_from(b, x, y, 1, -1, colour)
}

/// The rank step of a pawn of `colour`.
pub open spec fn pawn_direction(colour: Colour) -> int {
    if colour == Colour::White {
        1
    } else {
        -1
    }
}

/// The rank on which the pawns of `colour` start.
pub open spec fn pawn_home_rank(colour: Colour) -> int {
    if colour == Colour::White {
        1
    } else {
        6
    }
}

/// Pawn moves: one step forward onto an empty square, the two diagonal
/// captures, and two steps forward from the home rank when the first step was
/// possible and the square two ahead is empty.
pub open spec fn pawn_moves(b: Seq<Occupant>, x: int, y: int, colour: Colour) -> Seq<Square> {
    let dir = pawn_direction(colour);
    let forward = target(b, x, y + dir, colour, MovementMode::OnlyEmpty);
    let double = if forward.len() > 0 && y == pawn_home_rank(colour) {
        target(b, x, y + 2 * dir, colour, MovementMode::OnlyEmpty)
    } else {
        seq![]
    };
    forward + target(b, x - 1, y + dir, colour, MovementMode::OnlyDifferent) + target(
        b,
        x + 1,
        y + dir,
        colour,
        MovementMode::OnlyDifferent,
    ) + double
}

/// The candidate moves of a `piece` of `colour` on (x, y): where its movement
/// rule lets it go, whether or not that leaves its own king attacked.
pub open spec fn piece_moves(b: Seq<Occupant>, piece: Piece, x: int, y: int, colour: Colour) -> Seq<Square> {
    match piece {
        Piece::King => offset_moves(b, x, y, king_offsets(), colour),
        Piece::Queen => straight_moves(b, x, y, colour) + diagonal_moves(b, x, y, colour),
        Piece::Rook => straight_moves(b, x, y, colour),
        Piece::Knight => offset_moves(b, x, y, knight_offsets(), colour),
        Piece::Bishop => diagonal_moves(b, x, y, colour),
        Piece::Pawn => pawn_moves(b, x, y, colour),
    }
}

/// The candidate moves of whatever stands on (x, y); none from an empty square.
pub open spec fn candidate_moves(b: Seq<Occupant>, x: int, y: int) -> Seq<Square> {
    match cell(b, x, y) {
        Some(o) => piece_moves(b, o.0, x, y, o.1),
        None => seq![],
    }
}

/// Whether `side`'s king stands on square `s`.
pub open spec fn is_king_of(b: Seq<Occupant>, s: Square, side: Colour) -> bool {
    cell(b, s.0 as int, s.1 as int) == Some((Piece::King, side))
}

/// Whether one of `moves` lands on `side`'s king.
pub open spec fn hits_king(b: Seq<Occupant>, moves: Seq<Square>, side: Colour) -> bool {
    exists|k: int| 0 <= k < moves.len() && #[trigger] is_king_of(b, moves[k], side)
}

/// Whether a piece of the side other than `side` stands on (x, y) and one of its
/// candidate moves lands on `side`'s king.
pub open spec fn attacks_king(b: Seq<Occupant>, x: int, y: int, side: Colour) -> bool {
    match cell(b, x, y) {
        Some(o) => o.1 != side && hits_king(b, piece_moves(b, o.0, x, y, o.1), side),
        None => false,
    }
}

/// Whether `side`'s king is attacked.
pub open spec fn in_check(b: Seq<Occupant>, side: Colour) -> bool {
    exists|x: int, y: int| on_board(x, y) && #[trigger] attacks_king(b, x, y, side)
}

/// The candidates `cands` of the piece of `colour` on `from` whose move leaves
/// `colour`'s king unattacked, in order.
pub open spec fn legal_filter(b: Seq<Occupant>, from: Square, colour: Colour, cands: Seq<Square>) -> Seq<Square>
    decreases cands.len(),
{
    if cands.len() == 0 {
        seq![]
    } else {
        let rest = legal_filter(b, from, colour, cands.drop_last());
        if !in_check(apply_move(b, from, cands.last()), colour) {
            rest.push(cands.last())
        } else {
            rest
        }
    }
}

/// The legal moves of whatever stands on (x, y): its candidate moves that do not
/// leave its own king attacked.
pub open spec fn legal_moves(b: Seq<Occupant>, x: int, y: int) -> Seq<Square> {
    match cell(b, x, y) {
        Some(o) => legal_filter(b, (x as usize, y as usize), o.1, piece_moves(b, o.0, x, y, o.1)),
        None => seq![],
    }
}

/// Whether no piece of `side` has a legal move.
pub open spec fn no_legal_moves(b: Seq<Occupant>, side: Colour) -> bool {
    forall|x: int, y: int|
        on_board(x, y) && #[trigger] cell(b, x, y) is Some && cell(b, x, y).unwrap().1 == side
            ==> legal_moves(b, x, y).len() == 0
}

/// Whether `side` is checkmated: in check, with no legal move.
pub open spec fn is_checkmate(b: Seq<Occupant>, side: Colour) -> bool {
    in_check(b, side) && no_legal_moves(b, side)
}

/// How many of the first `n` squares, in board order, hold a piece of `side`.
pub open spec fn count_side(b: Seq<Occupant>, side: Colour, n: int) -> nat
    decreases n,
{
    if n <= 0 {
        0
    } else {
        count_side(b, side, n - 1) + if (b[n - 1] matches Some(o) && o.1 == side) {
            1nat
        } else {
            0nat
        }
    }
}

} // verus!
