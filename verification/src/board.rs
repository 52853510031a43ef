//! The 8×8 board, indexed by file and then by rank.

use vstd::prelude::*;
use vstd::array::spec_array_update;
use crate::pieces::{create_piece, Piece, PieceType, Team};

verus! {

/// The board: `board[file][rank]`, both from 0 to 7.
pub type Board = [[Piece; 8]; 8];

/// Whether (x, y) names a square of the board.
pub open spec fn on_board(x: int, y: int) -> bool {
    0 <= x <= 7 && 0 <= y <= 7
}

/// The board that holds `piece` on (x, y) and is `board` everywhere else.
pub open spec fn with_piece(board: Board, x: int, y: int, piece: Piece) -> Board
    recommends
        on_board(x, y),
{
    spec_array_update(board, x, spec_array_update(board[x], y, piece))
}

/// What `with_piece` holds on each square.
pub proof fn lemma_with_piece(board: Board, x: int, y: int, piece: Piece)
    requires
        on_board(x, y),
    ensures
        with_piece(board, x, y, piece)[x][y] == piece,
        forall|i: int, j: int|
            on_board(i, j) && !(i == x && j == y) ==> #[trigger] with_piece(
                board,
                x,
                y,
                piece,
            )[i][j] == board[i][j],
{
}

/// Two boards that agree on every square are the same board.
pub proof fn lemma_board_equal(a: Board, b: Board)
    requires
        forall|i: int, j: int| on_board(i, j) ==> #[trigger] a[i][j] == b[i][j],
    ensures
        a == b,
{
    assert forall|i: int| 0 <= i < 8 implies a[i] == b[i] by {
        assert forall|j: int| 0 <= j < 8 implies a[i][j] == b[i][j] by {
            assert(on_board(i, j));
        }
        assert(a[i] =~= b[i]);
    }
    assert(a =~= b);
}

/// Whether both coordinates of `pos` lie between 0 and 7.
pub fn check_in_board(pos: [isize; 2]) -> (inside: bool)
    ensures
        inside == on_board(pos[0] as int, pos[1] as int),
{
    if pos[0] < 0 || pos[0] > 7 {
        return false;
    }
    if pos[1] < 0 || pos[1] > 7 {
        return false;
    }
    return true;
}

/// The kind that stands on the given file of either back rank when a game
/// starts.
pub open spec fn back_rank_kind(x: int) -> PieceType {
    if x == 0 || x == 7 {
        PieceType::Rook
    } else if x == 1 || x == 6 {
        PieceType::Knight
    } else if x == 2 || x == 5 {
        PieceType::Bishop
    } else if x == 3 {
        PieceType::Queen
    } else {
        PieceType::King
    }
}

/// What stands on (x, y) when a game starts: White's pieces on rank 0 and
/// pawns on rank 1, Black's pawns on rank 6 and pieces on rank 7, nothing in
/// between, and nothing has moved.
pub open spec fn initial_piece(x: int, y: int) -> Piece {
    if y == 0 {
        Piece { piece_type: back_rank_kind(x), team: Team::White, moved: false }
    } else if y == 1 {
        Piece { piece_type: PieceType::Pawn, team: Team::White, moved: false }
    } else if y == 6 {
        Piece { piece_type: PieceType::Pawn, team: Team::Black, moved: false }
    } else if y == 7 {
        Piece { piece_type: back_rank_kind(x), team: Team::Black, moved: false }
    } else {
        Piece { piece_type: PieceType::Empty, team: Team::Unassigned, moved: false }
    }
}

/// Whether `board` is the board at the start of a game.
pub open spec fn is_initial_board(board: Board) -> bool {
    forall|i: int, j: int| on_board(i, j) ==> #[trigger] board[i][j] == initial_piece(i, j)
}

/// Whether no square of `board` holds a piece and nothing has moved.
pub open spec fn is_empty_board(board: Board) -> bool {
    forall|i: int, j: int|
        on_board(i, j) ==> #[trigger] board[i][j] == (Piece {
            piece_type: PieceType::Empty,
            team: Team::Unassigned,
            moved: false,
        })
}

/// The board on which no square holds a piece and nothing has moved.
pub fn empty_board() -> (board: Board)
    ensures
        is_empty_board(board),
{
    let empty_piece = create_piece(PieceType::Empty, Team::Unassigned);
    let file: [Piece; 8] = [
        empty_piece,
        empty_piece,
        empty_piece,
        empty_piece,
        empty_piece,
        empty_piece,
        empty_piece,
        empty_piece,
    ];
    let board: Board = [file, file, file, file, file, file, file, file];
    board
}

/// The board at the start of a game.
pub fn create_board() -> (board: Board)
    ensures
        is_initial_board(board),
{
    let mut temp_board = empty_board();
    temp_board[0][0] = create_piece(PieceType::Rook, Team::White);
    temp_board[1][0] = create_piece(PieceType::Knight, Team::White);
    temp_board[2][0] = create_piece(PieceType::Bishop, Team::White);
    temp_board[3][0] = create_piece(PieceType::Queen, Team::White);
    temp_board[4][0] = create_piece(PieceType::King, Team::White);
    temp_board[5][0] = create_piece(PieceType::Bishop, Team::White);
    temp_board[6][0] = create_piece(PieceType::Knight, Team::White);
    temp_board[7][0] = create_piece(PieceType::Rook, Team::White);
    temp_board[0][7] = create_piece(PieceType::Rook, Team::Black);
    temp_board[1][7] = create_piece(PieceType::Knight, Team::Black);
    temp_board[2][7] = create_piece(PieceType::Bishop, Team::Black);
    temp_board[3][7] = create_piece(PieceType::Queen, Team::Black);
    temp_board[4][7] = create_piece(PieceType::King, Team::Black);
    temp_board[5][7] = create_piece(PieceType::Bishop, Team::Black);
    temp_board[6][7] = create_piece(PieceType::Knight, Team::Black);
    temp_board[7][7] = create_piece(PieceType::Rook, Team::Black);
    let mut x: usize = 0;
    while x < 8
        invariant
            x <= 8,
            forall|i: int, j: int|
                on_board(i, j) && (j == 0 || j == 7 || 2 <= j <= 5 || i < x)
                    ==> #[trigger] temp_board[i][j] == initial_piece(i, j),
        decreases 8 - x,
    {
        temp_board[x][1] = create_piece(PieceType::Pawn, Team::White);
        temp_board[x][6] = create_piece(PieceType::Pawn, Team::Black);
        x += 1;
    }
    temp_board
}

} // verus!
