//! Teams, piece kinds, pieces and compass directions.

use vstd::prelude::*;

verus! {

/// One of the eight compass directions along which a piece can slide.
#[derive(Copy, Clone, PartialEq, Eq, Structural, Debug)]
pub enum Direction {
    North,
    NorthEast,
    West,
    SouthWest,
    South,
    SouthEast,
    East,
    NorthWest,
}

/// The side a piece belongs to. `Unassigned` marks an empty square and is
/// never the side to move.
#[derive(Copy, Clone, PartialEq, Eq, Structural, Debug)]
pub enum Team {
    Black,
    White,
    Unassigned,
}

/// The kind of a piece. `Empty` marks an empty square.
#[derive(Copy, Clone, PartialEq, Eq, Structural, Debug)]
pub enum PieceType {
    Rook,
    Knight,
    Bishop,
    Queen,
    King,
    Pawn,
    Empty,
}

/// What stands on one square: a kind, a team, and whether the piece has been
/// relocated by a move before.
#[derive(Copy, Clone, PartialEq, Eq, Structural, Debug)]
pub struct Piece {
    pub piece_type: PieceType,
    pub team: Team,
    pub moved: bool,
}

impl Direction {
    /// The unit step of the direction, as (file step, rank step).
    pub open spec fn offset(self) -> (int, int) {
        match self {
            Direction::North => (0, 1),
            Direction::East => (1, 0),
            Direction::South => (0, -1),
            Direction::West => (-1, 0),
            Direction::NorthEast => (1, 1),
            Direction::SouthEast => (1, -1),
            Direction::NorthWest => (-1, 1),
            Direction::SouthWest => (-1, -1),
        }
    }
}

impl Team {
    /// The side that moves after `self`: White after Black, Black after
    /// White, and White where no side was set.
    pub open spec fn next(self) -> Team {
        match self {
            Team::Black => Team::White,
            Team::White => Team::Black,
            Team::Unassigned => Team::White,
        }
    }

    /// Whether `self` is one of the two playing sides.
    pub open spec fn is_side(self) -> bool {
        self == Team::White || self == Team::Black
    }
}

impl Piece {
    /// What is left on a square when its piece leaves: no kind, no team, and
    /// the `moved` flag as it was.
    pub open spec fn vacated(self) -> Piece {
        Piece { piece_type: PieceType::Empty, team: Team::Unassigned, moved: self.moved }
    }

    /// The piece after it has been relocated: the same kind and team, marked
    /// as moved.
    pub open spec fn relocated(self) -> Piece {
        Piece { piece_type: self.piece_type, team: self.team, moved: true }
    }

    /// Whether the square holds a piece of `team`: the team matches and the
    /// kind is not `Empty`.
    pub open spec fn is_piece_of(self, team: Team) -> bool {
        self.team == team && self.piece_type != PieceType::Empty
    }
}

/// A piece of the given kind and team that has not moved yet.
pub fn create_piece(piece_type: PieceType, team: Team) -> (piece: Piece)
    ensures
        piece == (Piece { piece_type, team, moved: false }),
{
    Piece { piece_type, team, moved: false }
}

/// Hands the turn to the other side.
pub fn switch_teams(team: &mut Team)
    ensures
        *final(team) == old(team).next(),
{
    *team = match *team {
        Team::Black => Team::White,
        Team::White => Team::Black,
        _ => Team::White,
    }
}

} // verus!
