//! Moves that change the board: the plain move of one piece, castling, and
//! the capture en passant. Each keeps the board as it was at the front of
//! the history before it changes anything.

use vstd::prelude::*;
use crate::board::{lemma_board_equal, lemma_with_piece, on_board, with_piece, Board};
use crate::pieces::{switch_teams, Piece, PieceType, Team};

verus! {

/// The history once `board` has been put in front of it.
pub open spec fn pushed(history: Seq<Board>, board: Board) -> Seq<Board> {
    seq![board] + history
}

/// The board after the piece on (ox, oy) has moved to (dx, dy): the
/// destination holds that piece, marked as moved, in place of whatever stood
/// there, and the origin is vacated.
pub open spec fn moved_board(board: Board, ox: int, oy: int, dx: int, dy: int) -> Board {
    let placed = with_piece(board, dx, dy, board[ox][oy].relocated());
    with_piece(placed, ox, oy, placed[ox][oy].vacated())
}

/// The board `after` with the squares (ox, oy) and (dx, dy) put back as
/// `snapshot` has them.
pub open spec fn restored_board(after: Board, snapshot: Board, ox: int, oy: int, dx: int, dy: int) -> Board {
    with_piece(with_piece(after, ox, oy, snapshot[ox][oy]), dx, dy, snapshot[dx][dy])
}

/// The rank on which the pieces of `team` start: 0 for White, 7 otherwise.
pub open spec fn home_rank(team: Team) -> int {
    if team == Team::White {
        0
    } else {
        7
    }
}

/// The file of the corner in which the rook stands that castles with a king
/// bound for file x: 7 for the king's side (x = 6), 0 for the queen's side.
pub open spec fn rook_corner(x: int) -> int {
    if x == 6 {
        7
    } else {
        0
    }
}

/// The file on which that rook stands after castling: 5 on the king's side,
/// 3 on the queen's side.
pub open spec fn rook_target(x: int) -> int {
    if x == 6 {
        5
    } else {
        3
    }
}

/// Whether every square strictly between the king's file 4 and the rook's
/// corner, on rank y, holds no piece.
pub open spec fn path_clear(board: Board, x: int, y: int) -> bool {
    if x == 6 {
        board[5][y].piece_type == PieceType::Empty && board[6][y].piece_type == PieceType::Empty
    } else {
        board[3][y].piece_type == PieceType::Empty && board[2][y].piece_type == PieceType::Empty
            && board[1][y].piece_type == PieceType::Empty
    }
}

/// Whether the piece selected on (sx, sy) may castle to (x, y): castling is
/// allowed for the selection; `team` is White or Black; (x, y) is file 6 or
/// file 2 of the home rank of `team`; the selected piece is a king of `team`
/// that stands on file 4 of that rank and has not moved; the corner on that
/// side holds a rook that has not moved; and the squares between them are
/// empty.
pub open spec fn castle_permitted(
    can_castle: bool,
    x: int,
    y: int,
    board: Board,
    sx: int,
    sy: int,
    team: Team,
) -> bool {
    &&& can_castle
    &&& team.is_side()
    &&& (x == 6 || x == 2)
    &&& y == home_rank(team)
    &&& sx == 4
    &&& sy == y
    &&& board[4][y].piece_type == PieceType::King
    &&& board[4][y].team == team
    &&& !board[4][y].moved
    &&& board[rook_corner(x)][y].piece_type == PieceType::Rook
    &&& !board[rook_corner(x)][y].moved
    &&& path_clear(board, x, y)
}

/// The board after the king on (4, y) has castled to (x, y): the king stands
/// on (x, y), marked as moved; its square and the rook's corner are vacated;
/// the rook stands on its target square as it stood in the corner, not marked
/// as moved.
pub open spec fn castled_board(board: Board, x: int, y: int) -> Board {
    let king_placed = with_piece(board, x, y, board[4][y].relocated());
    let king_left = with_piece(king_placed, 4, y, board[4][y].vacated());
    let rook_left = with_piece(king_left, rook_corner(x), y, board[rook_corner(x)][y].vacated());
    with_piece(rook_left, rook_target(x), y, board[rook_corner(x)][y])
}

/// The team of the pawn that a capture onto rank y takes: a white pawn is
/// taken by a capture onto rank 2, a black pawn by one onto rank 5.
pub open spec fn passed_team(y: int) -> Team {
    if y == 2 {
        Team::White
    } else {
        Team::Black
    }
}

/// The rank on which the pawn stands that a capture onto rank y takes.
pub open spec fn passed_rank(y: int) -> int {
    if y == 2 {
        3
    } else {
        4
    }
}

/// The rank from which that pawn made its double step.
pub open spec fn passed_start_rank(y: int) -> int {
    if y == 2 {
        1
    } else {
        6
    }
}

/// Whether the square holds a pawn of `team`.
pub open spec fn is_pawn_of(piece: Piece, team: Team) -> bool {
    piece.piece_type == PieceType::Pawn && piece.team == team
}

/// Whether the piece selected on (sx, sy) may capture en passant onto
/// (x, y): both are squares of the board; y is 2 or 5; the selected piece is
/// a pawn; right behind (x, y) on the same file, one rank further from the
/// passed pawn's starting rank, stands a pawn of the other team; and the
/// board at the front of the history shows that pawn on its starting rank,
/// not yet moved.
pub open spec fn en_passant_permitted(
    x: int,
    y: int,
    board: Board,
    sx: int,
    sy: int,
    history: Seq<Board>,
) -> bool {
    &&& on_board(x, y)
    &&& on_board(sx, sy)
    &&& (y == 2 || y == 5)
    &&& board[sx][sy].piece_type == PieceType::Pawn
    &&& board[sx][sy].team != passed_team(y)
    &&& is_pawn_of(board[x][passed_rank(y)], passed_team(y))
    &&& history.len() > 0
    &&& is_pawn_of(history[0][x][passed_start_rank(y)], passed_team(y))
    &&& !history[0][x][passed_start_rank(y)].moved
}

/// The board after the pawn on (sx, sy) has captured en passant onto (x, y):
/// the pawn stands on (x, y), marked as moved; the square of the passed pawn
/// and the square that the capturing pawn left are vacated.
pub open spec fn en_passant_board(board: Board, x: int, y: int, sx: int, sy: int) -> Board {
    let placed = with_piece(board, x, y, board[sx][sy].relocated());
    let captured = with_piece(placed, x, passed_rank(y), placed[x][passed_rank(y)].vacated());
    with_piece(captured, sx, sy, captured[sx][sy].vacated())
}

/// Takes the piece off (x, y): the square keeps only its `moved` flag.
fn vacate(board: &mut Board, x: usize, y: usize)
    requires
        x < 8,
        y < 8,
    ensures
        *final(board) == with_piece(
            *old(board),
            x as int,
            y as int,
            old(board)[x as int][y as int].vacated(),
        ),
{
    board[x][y].team = Team::Unassigned;
    board[x][y].piece_type = PieceType::Empty;
    proof {
        let cleared = old(board)[x as int][y as int].vacated();
        lemma_with_piece(*old(board), x as int, y as int, cleared);
        lemma_board_equal(*board, with_piece(*old(board), x as int, y as int, cleared));
    }
}

/// Puts the piece of (ox, oy) onto (dx, dy), marked as moved.
fn relocate(board: &mut Board, ox: usize, oy: usize, dx: usize, dy: usize)
    requires
        ox < 8,
        oy < 8,
        dx < 8,
        dy < 8,
    ensures
        *final(board) == with_piece(
            *old(board),
            dx as int,
            dy as int,
            old(board)[ox as int][oy as int].relocated(),
        ),
{
    board[dx][dy] = board[ox][oy];
    board[dx][dy].moved = true;
    proof {
        let piece = old(board)[ox as int][oy as int].relocated();
        lemma_with_piece(*old(board), dx as int, dy as int, piece);
        lemma_board_equal(*board, with_piece(*old(board), dx as int, dy as int, piece));
    }
}

/// Puts the board in front of the history.
fn snapshot(history: &mut Vec<Board>, board: &Board)
    ensures
        final(history)@ == pushed(old(history)@, *board),
{
    history.insert(0, *board);
    proof {
        assert(history@ =~= pushed(old(history)@, *board));
    }
}

/// Moves the piece on `origin` to `destination`, whatever stands there, and
/// marks it as moved; the board as it was goes to the front of the history.
/// Where either is no square of the board, nothing changes and the answer is
/// `false`. Whether the move is legal is not asked here.
pub fn apply_move(
    board: &mut Board,
    origin: [isize; 2],
    destination: [isize; 2],
    history: &mut Vec<Board>,
) -> (applied: bool)
    ensures
        applied == (on_board(origin[0] as int, origin[1] as int) && on_board(
            destination[0] as int,
            destination[1] as int,
        )),
        applied ==> *final(board) == moved_board(
            *old(board),
            origin[0] as int,
            origin[1] as int,
            destination[0] as int,
            destination[1] as int,
        ),
        applied ==> final(history)@ == pushed(old(history)@, *old(board)),
        !applied ==> *final(board) == *old(board),
        !applied ==> final(history)@ == old(history)@,
{
    if !(0 <= origin[0] && origin[0] <= 7 && 0 <= origin[1] && origin[1] <= 7) {
        return false;
    }
    if !(0 <= destination[0] && destination[0] <= 7 && 0 <= destination[1] && destination[1] <= 7) {
        return false;
    }
    let ox = origin[0] as usize;
    let oy = origin[1] as usize;
    let dx = destination[0] as usize;
    let dy = destination[1] as usize;
    snapshot(history, board);
    relocate(board, ox, oy, dx, dy);
    vacate(board, ox, oy);
    true
}

/// Castles the king selected on (`selected_piece_0`, `selected_piece_1`) to
/// (x, y), where that is permitted: the king and the rook change places as
/// `castled_board` says, the board as it was goes to the front of the
/// history, and the turn passes to the other side. Where it is not
/// permitted, nothing changes and the answer is `false`. Whether the king
/// passes over or lands on an attacked square is not asked.
pub fn castle(
    can_castle: bool,
    x: i32,
    y: i32,
    board: &mut Board,
    selected_piece_0: i32,
    selected_piece_1: i32,
    current_team: &mut Team,
    history: &mut Vec<Board>,
) -> (castled: bool)
    ensures
        castled == castle_permitted(
            can_castle,
            x as int,
            y as int,
            *old(board),
            selected_piece_0 as int,
            selected_piece_1 as int,
            *old(current_team),
        ),
        castled ==> *final(board) == castled_board(*old(board), x as int, y as int),
        castled ==> final(history)@ == pushed(old(history)@, *old(board)),
        castled ==> *final(current_team) == old(current_team).next(),
        !castled ==> *final(board) == *old(board),
        !castled ==> final(history)@ == old(history)@,
        !castled ==> *final(current_team) == *old(current_team),
{
    if !can_castle {
        return false;
    }
    let home: i32 = match *current_team {
        Team::White => 0,
        Team::Black => 7,
        Team::Unassigned => {
            return false;
        },
    };
    if !(x == 6 || x == 2) || y != home || selected_piece_0 != 4 || selected_piece_1 != home {
        return false;
    }
    let rank = home as usize;
    let king = board[4][rank];
    if king.piece_type != PieceType::King || king.team != *current_team || king.moved {
        return false;
    }
    let corner: usize = if x == 6 {
        7
    } else {
        0
    };
    let target: usize = if x == 6 {
        5
    } else {
        3
    };
    let rook = board[corner][rank];
    if rook.piece_type != PieceType::Rook || rook.moved {
        return false;
    }
    let clear = if x == 6 {
        board[5][rank].piece_type == PieceType::Empty && board[6][rank].piece_type
            == PieceType::Empty
    } else {
        board[3][rank].piece_type == PieceType::Empty && board[2][rank].piece_type
            == PieceType::Empty && board[1][rank].piece_type == PieceType::Empty
    };
    if !clear {
        return false;
    }
    snapshot(history, board);
    relocate(board, 4, rank, x as usize, rank);
    vacate(board, 4, rank);
    vacate(board, corner, rank);
    board[target][rank] = rook;
    proof {
        let before = *old(board);
        let king_placed = with_piece(before, x as int, y as int, before[4][y as int].relocated());
        let king_left = with_piece(king_placed, 4, y as int, before[4][y as int].vacated());
        let rook_left = with_piece(
            king_left,
            corner as int,
            y as int,
            before[corner as int][y as int].vacated(),
        );
        lemma_with_piece(before, x as int, y as int, before[4][y as int].relocated());
        lemma_with_piece(king_placed, 4, y as int, before[4][y as int].vacated());
        lemma_with_piece(king_left, corner as int, y as int, before[corner as int][y as int].vacated());
        lemma_with_piece(rook_left, target as int, y as int, rook);
        lemma_board_equal(*board, castled_board(before, x as int, y as int));
    }
    switch_teams(current_team);
    true
}

/// Captures en passant with the pawn selected on (`selected_piece_0`,
/// `selected_piece_1`) onto (x, y), where that is permitted: the pawns move
/// as `en_passant_board` says, the board as it was goes to the front of the
/// history, and the turn passes to the other side. Where it is not
/// permitted, nothing changes and the answer is `false`.
pub fn en_passant(
    x: i32,
    y: i32,
    board: &mut Board,
    selected_piece_0: i32,
    selected_piece_1: i32,
    current_team: &mut Team,
    history: &mut Vec<Board>,
) -> (captured: bool)
    ensures
        captured == en_passant_permitted(
            x as int,
            y as int,
            *old(board),
            selected_piece_0 as int,
            selected_piece_1 as int,
            old(history)@,
        ),
        captured ==> *final(board) == en_passant_board(
            *old(board),
            x as int,
            y as int,
            selected_piece_0 as int,
            selected_piece_1 as int,
        ),
        captured ==> final(history)@ == pushed(old(history)@, *old(board)),
        captured ==> *final(current_team) == old(current_team).next(),
        !captured ==> *final(board) == *old(board),
        !captured ==> final(history)@ == old(history)@,
        !captured ==> *final(current_team) == *old(current_team),
{
    if !(0 <= x && x <= 7 && 0 <= selected_piece_0 && selected_piece_0 <= 7 && 0
        <= selected_piece_1 && selected_piece_1 <= 7) {
        return false;
    }
    if !(y == 2 || y == 5) {
        return false;
    }
    let file = x as usize;
    let sx = selected_piece_0 as usize;
    let sy = selected_piece_1 as usize;
    let passed: Team = if y == 2 {
        Team::White
    } else {
        Team::Black
    };
    let behind: usize = if y == 2 {
        3
    } else {
        4
    };
    let start: usize = if y == 2 {
        1
    } else {
        6
    };
    let pawn = board[sx][sy];
    if pawn.piece_type != PieceType::Pawn || pawn.team == passed {
        return false;
    }
    let victim = board[file][behind];
    if victim.piece_type != PieceType::Pawn || victim.team != passed {
        return false;
    }
    if history.len() == 0 {
        return false;
    }
    let earlier = history[0][file][start];
    if earlier.piece_type != PieceType::Pawn || earlier.team != passed || earlier.moved {
        return false;
    }
    snapshot(history, board);
    relocate(board, sx, sy, file, y as usize);
    vacate(board, file, behind);
    vacate(board, sx, sy);
    switch_teams(current_team);
    true
}

/// Undoing a move from the history: where the piece on (ox, oy) has moved to
/// (dx, dy), putting those two squares back as the board before the move has
/// them gives that board again.
pub proof fn lemma_move_round_trip(board: Board, ox: int, oy: int, dx: int, dy: int)
    requires
        on_board(ox, oy),
        on_board(dx, dy),
    ensures
        restored_board(moved_board(board, ox, oy, dx, dy), board, ox, oy, dx, dy) == board,
{
    let placed = with_piece(board, dx, dy, board[ox][oy].relocated());
    let after = moved_board(board, ox, oy, dx, dy);
    let origin_back = with_piece(after, ox, oy, board[ox][oy]);
    lemma_with_piece(board, dx, dy, board[ox][oy].relocated());
    lemma_with_piece(placed, ox, oy, placed[ox][oy].vacated());
    lemma_with_piece(after, ox, oy, board[ox][oy]);
    lemma_with_piece(origin_back, dx, dy, board[dx][dy]);
    lemma_board_equal(restored_board(after, board, ox, oy, dx, dy), board);
}

/// Castling needs a clear path and two pieces that have not moved: where a
/// square between the king and the rook holds a piece, or the king or the
/// rook has moved before, castling is not permitted.
pub proof fn lemma_castle_blocked(
    can_castle: bool,
    x: int,
    y: int,
    board: Board,
    sx: int,
    sy: int,
    team: Team,
    between: int,
)
    requires
        board[sx][sy].moved || board[rook_corner(x)][y].moved || ((if x == 6 {
            4 < between < 7
        } else {
            0 < between < 4
        }) && board[between][y].piece_type != PieceType::Empty),
    ensures
        !castle_permitted(can_castle, x, y, board, sx, sy, team),
{
}

} // verus!
