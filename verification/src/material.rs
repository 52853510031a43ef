//! The material that each side has on the board.

use vstd::prelude::*;
use crate::board::Board;
use crate::pieces::{PieceType, Team};

verus! {

/// The value of a piece of the given kind: pawn 1, knight 3, bishop 3, rook 5,
/// queen 9, and nothing for a king or an empty square.
pub open spec fn piece_value(kind: PieceType) -> int {
    match kind {
        PieceType::Pawn => 1,
        PieceType::Knight => 3,
        PieceType::Bishop => 3,
        PieceType::Rook => 5,
        PieceType::Queen => 9,
        PieceType::King => 0,
        PieceType::Empty => 0,
    }
}

/// What the square (x, y) adds to the material of `team`.
pub open spec fn square_score(board: Board, team: Team, x: int, y: int) -> int {
    if board[x][y].team == team {
        piece_value(board[x][y].piece_type)
    } else {
        0
    }
}

/// The material of `team` on the files 0 to `files` - 1 of rank y.
pub open spec fn rank_score(board: Board, team: Team, y: int, files: int) -> int
    decreases files,
{
    if files <= 0 {
        0
    } else {
        rank_score(board, team, y, files - 1) + square_score(board, team, files - 1, y)
    }
}

/// The material of `team` on the ranks y to 7.
pub open spec fn score_from_rank(board: Board, team: Team, y: int) -> int
    decreases 8 - y,
{
    if y >= 8 {
        0
    } else {
        rank_score(board, team, y, 8) + score_from_rank(board, team, y + 1)
    }
}

/// The material of `team`: the sum of the values of its pieces over all 64
/// squares.
pub open spec fn material(board: Board, team: Team) -> int {
    score_from_rank(board, team, 0)
}

/// The value of a piece of the given kind.
fn value_of(kind: PieceType) -> (value: i32)
    ensures
        value == piece_value(kind),
{
    match kind {
        PieceType::Pawn => 1,
        PieceType::Knight => 3,
        PieceType::Bishop => 3,
        PieceType::Rook => 5,
        PieceType::Queen => 9,
        _ => 0,
    }
}

/// The material of White and of Black, in this order.
pub fn calculate_advantage(board: &Board) -> (scores: (i32, i32))
    ensures
        scores.0 == material(*board, Team::White),
        scores.1 == material(*board, Team::Black),
{
    let mut white_team: i32 = 0;
    let mut black_team: i32 = 0;
    let mut y: usize = 8;
    while y > 0
        invariant
            y <= 8,
            white_team == score_from_rank(*board, Team::White, y as int),
            black_team == score_from_rank(*board, Team::Black, y as int),
            0 <= white_team <= 72 * (8 - y),
            0 <= black_team <= 72 * (8 - y),
        decreases y,
    {
        y = y - 1;
        let mut white_rank: i32 = 0;
        let mut black_rank: i32 = 0;
        let mut x: usize = 0;
        while x < 8
            invariant
                y < 8,
                x <= 8,
                white_rank == rank_score(*board, Team::White, y as int, x as int),
                black_rank == rank_score(*board, Team::Black, y as int, x as int),
                0 <= white_rank <= 9 * x,
                0 <= black_rank <= 9 * x,
            decreases 8 - x,
        {
            let piece = board[x][y];
            if piece.team == Team::White {
                white_rank = white_rank + value_of(piece.piece_type);
            } else if piece.team == Team::Black {
                black_rank = black_rank + value_of(piece.piece_type);
            }
            x = x + 1;
        }
        white_team = white_team + white_rank;
        black_team = black_team + black_rank;
    }
    (white_team, black_team)
}

} // verus!
