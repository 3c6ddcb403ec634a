use vstd::prelude::*;
use crate::board::{
    board_wf, diagonal_moves, king_offsets, knight_offsets, offset_moves, pawn_moves, piece_moves,
    ray, ray_from, square_on_board, straight_moves, target, Occupant, Square,
};
use crate::types::{Colour, MovementMode, Piece};

verus! {

/// `value + difference`, or `None` where that is negative or does not fit.
pub fn add_i32_usize(value: usize, difference: i32) -> (r: Option<usize>)
    ensures
        r == (if 0 <= value + difference <= usize::MAX {
            Some((value + difference) as usize)
        } else {
            None
        }),
{
    if difference >= 0 {
        value.checked_add(difference as usize)
    } else {
        value.checked_sub((0 - (difference as i64)) as usize)
    }
}

/// The square `position` as a move of a piece of `colour`, if it is on the
/// board and its occupancy suits `movement_mode`.
pub fn get_specific_movement(
    position: Square,
    colour: Colour,
    board: &Vec<Occupant>,
    movement_mode: MovementMode,
) -> (r: Vec<Square>)
    requires
        board_wf(board@),
    ensures
        r@ == target(board@, position.0 as int, position.1 as int, colour, movement_mode),
{
    let mut positions: Vec<Square> = Vec::new();
    if position.0 >= 8 || position.1 >= 8 {
        return positions;
    }
    let occupant = board[position.0 * 8 + position.1];
    let ok = match movement_mode {
        MovementMode::OnlyEmpty => occupant.is_none(),
        MovementMode::OnlyDifferent => match occupant {
            Some(o) => o.1 != colour,
            None => false,
        },
        MovementMode::Both => match occupant {
            Some(o) => o.1 != colour,
            None => true,
        },
    };
    if ok {
        positions.push(position);
        assert(positions@ =~= seq![position]);
    }
    positions
}

/// The squares at `offsets` from `position` that are empty or held by the
/// other side, in the order of `offsets`.
pub fn get_movements_from_array(
    position: Square,
    offsets: &Vec<(i32, i32)>,
    colour: Colour,
    board: &Vec<Occupant>,
) -> (r: Vec<Square>)
    requires
        board_wf(board@),
        square_on_board(position),
    ensures
        r@ == offset_moves(board@, position.0 as int, position.1 as int, offsets@, colour),
{
    let mut movements: Vec<Square> = Vec::new();
    let n = offsets.len();
    for i in 0..n
        invariant
            n == offsets@.len(),
            board_wf(board@),
            square_on_board(position),
            movements@ == offset_moves(
                board@,
                position.0 as int,
                position.1 as int,
                offsets@.take(i as int),
                colour,
            ),
    {
        let offset = offsets[i];
        let x_position = add_i32_usize(position.0, offset.0);
        let y_position = add_i32_usize(position.1, offset.1);
        assert(offsets@.take(i + 1).drop_last() =~= offsets@.take(i as int));
        match (x_position, y_position) {
            (Some(x), Some(y)) => {
                let mut found = get_specific_movement((x, y), colour, board, MovementMode::Both);
                movements.append(&mut found);
            },
            _ => {},
        }
    }
    assert(offsets@.take(n as int) =~= offsets@);
    movements
}

/// The squares one step around `position`.
pub fn get_king_movement(position: Square, colour: Colour, board: &Vec<Occupant>) -> (r: Vec<Square>)
    requires
        board_wf(board@),
        square_on_board(position),
    ensures
        r@ == offset_moves(board@, position.0 as int, position.1 as int, king_offsets(), colour),
{
    let offsets: Vec<(i32, i32)> = vec![
        (-1, 0),
        (-1, 1),
        (0, 1),
        (1, 1),
        (1, 0),
        (1, -1),
        (0, -1),
        (-1, -1),
    ];
    assert(offsets@ =~= king_offsets());
    get_movements_from_array(position, &offsets, colour, board)
}

/// The squares a knight's jump away from `position`.
pub fn get_knight_movement(position: Square, colour: Colour, board: &Vec<Occupant>) -> (r: Vec<Square>)
    requires
        board_wf(board@),
        square_on_board(position),
    ensures
        r@ == offset_moves(board@, position.0 as int, position.1 as int, knight_offsets(), colour),
{
    let offsets: Vec<(i32, i32)> = vec![
        (-2, 1),
        (-1, 2),
        (1, 2),
        (2, 1),
        (2, -1),
        (1, -2),
        (-1, -2),
        (-2, -1),
    ];
    assert(offsets@ =~= knight_offsets());
    get_movements_from_array(position, &offsets, colour, board)
}

/// The pawn moves from `position` for a pawn of `colour`: the single step,
/// the two diagonal captures, and the double step from the home rank when the
/// single step was possible.
pub fn get_pawn_movement(position: Square, colour: Colour, board: &Vec<Occupant>) -> (r: Vec<Square>)
    requires
        board_wf(board@),
        square_on_board(position),
    ensures
        r@ == pawn_moves(board@, position.0 as int, position.1 as int, colour),
{
    let mut movements: Vec<Square> = Vec::new();
    let direction: i32 = if colour == Colour::White {
        1
    } else {
        -1
    };
    let y_position = add_i32_usize(position.1, direction);
    match y_position {
        None => {
            assert(pawn_moves(board@, position.0 as int, position.1 as int, colour) =~= seq![]);
        },
        Some(y) => {
            let mut forward_move = get_specific_movement(
                (position.0, y),
                colour,
                board,
                MovementMode::OnlyEmpty,
            );
            let forward_move_valid = forward_move.len() > 0;
            movements.append(&mut forward_move);
            let mut left: Vec<Square> = Vec::new();
            if position.0 >= 1 {
                left = get_specific_movement((position.0 - 1, y), colour, board, MovementMode::OnlyDifferent);
            }
            movements.append(&mut left);
            let mut right = get_specific_movement(
                (position.0 + 1, y),
                colour,
                board,
                MovementMode::OnlyDifferent,
            );
            movements.append(&mut right);
            let on_home_rank = (colour == Colour::White && position.1 == 1) || (colour
                == Colour::Black && position.1 == 6);
            if forward_move_valid && on_home_rank {
                let two_ahead = add_i32_usize(position.1, direction * 2);
                if let Some(y2) = two_ahead {
                    let mut double = get_specific_movement(
                        (position.0, y2),
                        colour,
                        board,
                        MovementMode::OnlyEmpty,
                    );
                    movements.append(&mut double);
                }
            }
            assert(movements@ =~= pawn_moves(board@, position.0 as int, position.1 as int, colour));
        },
    }
    movements
}

/// The ray from `position` in direction (`dx`, `dy`): empty squares in order of
/// distance, then the first occupied square if the other side holds it.
pub fn get_moves_in_direction(
    position: Square,
    dx: i64,
    dy: i64,
    colour: Colour,
    board: &Vec<Occupant>,
) -> (r: Vec<Square>)
    requires
        board_wf(board@),
        square_on_board(position),
        -1 <= dx <= 1,
        -1 <= dy <= 1,
    ensures
        r@ == ray_from(board@, position.0 as int, position.1 as int, dx as int, dy as int, colour),
{
    let ghost whole = ray_from(board@, position.0 as int, position.1 as int, dx as int, dy as int, colour);
    let mut positions: Vec<Square> = Vec::new();
    let mut x: i64 = position.0 as i64 + dx;
    let mut y: i64 = position.1 as i64 + dy;
    let mut steps: u64 = 7;
    let mut done = false;
    while !done && steps > 0 && 0 <= x && x < 8 && 0 <= y && y < 8
        invariant
            board_wf(board@),
            -1 <= dx <= 1,
            -1 <= dy <= 1,
            -1 <= x <= 8,
            -1 <= y <= 8,
            steps <= 7,
            done ==> positions@ == whole,
            !done ==> positions@ + ray(board@, x as int, y as int, dx as int, dy as int, colour, steps as nat)
                == whole,
        decreases steps + if done { 0int } else { 1int },
    {
        let ghost rest = ray(board@, x as int, y as int, dx as int, dy as int, colour, steps as nat);
        let square: Square = (x as usize, y as usize);
        match board[(x * 8 + y) as usize] {
            None => {
                let ghost before = positions@;
                positions.push(square);
                assert(before + rest =~= positions@ + ray(
                    board@,
                    (x + dx) as int,
                    (y + dy) as int,
                    dx as int,
                    dy as int,
                    colour,
                    (steps - 1) as nat,
                ));
                x = x + dx;
                y = y + dy;
                steps = steps - 1;
            },
            Some(o) => {
                let ghost before = positions@;
                if o.1 != colour {
                    positions.push(square);
                }
                assert(before + rest =~= positions@);
                done = true;
            },
        }
    }
    if !done {
        assert(positions@ + seq![] =~= positions@);
    }
    positions
}

/// The rook's moves from `position`: left, right, down, then up.
pub fn get_straight_movements(position: Square, colour: Colour, board: &Vec<Occupant>) -> (r: Vec<Square>)
    requires
        board_wf(board@),
        square_on_board(position),
    ensures
        r@ == straight_moves(board@, position.0 as int, position.1 as int, colour),
{
    let mut positions = get_moves_in_direction(position, -1, 0, colour, board);
    let mut right = get_moves_in_direction(position, 1, 0, colour, board);
    positions.append(&mut right);
    let mut down = get_moves_in_direction(position, 0, -1, colour, board);
    positions.append(&mut down);
    let mut up = get_moves_in_direction(position, 0, 1, colour, board);
    positions.append(&mut up);
    positions
}

/// The bishop's moves from `position`: up-left, up-right, down-left, then
/// down-right.
pub fn get_diagonal_movements(position: Square, colour: Colour, board: &Vec<Occupant>) -> (r: Vec<Square>)
    requires
        board_wf(board@),
        square_on_board(position),
    ensures
        r@ == diagonal_moves(board@, position.0 as int, position.1 as int, colour),
{
    let mut positions = get_moves_in_direction(position, -1, 1, colour, board);
    let mut up_right = get_moves_in_direction(position, 1, 1, colour, board);
    positions.append(&mut up_right);
    let mut down_left = get_moves_in_direction(position, -1, -1, colour, board);
    positions.append(&mut down_left);
    let mut down_right = get_moves_in_direction(position, 1, -1, colour, board);
    positions.append(&mut down_right);
    positions
}

impl Piece {
    /// The candidate moves of this piece, of `colour`, standing on `position`:
    /// where its movement rule lets it go, whether or not that leaves its own
    /// king attacked.
    pub fn get_candidate_moves(
        &self,
        position: Square,
        colour: Colour,
        board: &Vec<Occupant>,
    ) -> (r: Vec<Square>)
        requires
            board_wf(board@),
            square_on_board(position),
        ensures
            r@ == piece_moves(board@, *self, position.0 as int, position.1 as int, colour),
    {
        match self {
            Piece::King => get_king_movement(position, colour, board),
            Piece::Queen => {
                let mut movements = get_straight_movements(position, colour, board);
                let mut diagonal = get_diagonal_movements(position, colour, board);
                movements.append(&mut diagonal);
                movements
            },
            Piece::Rook => get_straight_movements(position, colour, board),
            Piece::Knight => get_knight_movement(position, colour, board),
            Piece::Bishop => get_diagonal_movements(position, colour, board),
            Piece::Pawn => get_pawn_movement(position, colour, board),
        }
    }
}

} // verus!
