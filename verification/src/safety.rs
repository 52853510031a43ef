//! Attacks on a king, the moves that keep the mover's own king safe, and the
//! positions in which a side has no move left.

use vstd::prelude::*;
use crate::board::{lemma_board_equal, lemma_with_piece, on_board, with_piece, Board};
use crate::moves::{
    all_on_board,
    lemma_filter_take_next,
    pseudo_legal_moves,
    pseudo_moves,
    squares_of,
};
use crate::pieces::{Piece, PieceType, Team};

verus! {

/// Whether `square` is a square of the board that holds a king of `team`.
pub open spec fn holds_king_of(board: Board, team: Team, square: (int, int)) -> bool {
    on_board(square.0, square.1) && board[square.0][square.1].piece_type == PieceType::King
        && board[square.0][square.1].team == team
}

/// Whether one of the squares holds a king of `team`.
pub open spec fn reaches_king(board: Board, team: Team, squares: Seq<(int, int)>) -> bool {
    exists|k: int| 0 <= k < squares.len() && holds_king_of(board, team, #[trigger] squares[k])
}

/// Whether `piece` stands against `team`: it is a piece, and of another
/// team.
pub open spec fn opposes(piece: Piece, team: Team) -> bool {
    piece.team != team && piece.piece_type != PieceType::Empty
}

/// Whether the piece on (x, y) stands against `team` and reaches a king of
/// `team` by the shape of its move.
pub open spec fn attacks_king(board: Board, team: Team, x: int, y: int) -> bool {
    opposes(board[x][y], team) && reaches_king(
        board,
        team,
        pseudo_moves(board[x][y], x, y, board),
    )
}

/// Whether a king of `team` is attacked: some square of the board holds a
/// piece that attacks it.
pub open spec fn in_check(team: Team, board: Board) -> bool {
    exists|x: int, y: int| on_board(x, y) && #[trigger] attacks_king(board, team, x, y)
}

/// The board after `piece` has gone from (x, y) to (nx, ny): the square it
/// left is vacated, and the square it reached holds `piece` in place of
/// whatever stood there.
pub open spec fn board_after(board: Board, piece: Piece, x: int, y: int, nx: int, ny: int) -> Board {
    with_piece(with_piece(board, x, y, board[x][y].vacated()), nx, ny, piece)
}

/// Whether the team of `piece` is in check once `piece` has gone from (x, y)
/// to `to`.
pub open spec fn leaves_in_check(board: Board, piece: Piece, x: int, y: int, to: (int, int)) -> bool {
    in_check(piece.team, board_after(board, piece, x, y, to.0, to.1))
}

/// The test that a destination does not leave the mover's team in check.
pub open spec fn safe_test(board: Board, piece: Piece, x: int, y: int) -> spec_fn(
    (int, int),
) -> bool {
    |to: (int, int)| !leaves_in_check(board, piece, x, y, to)
}

/// Those of `squares`, in their order, to which `piece` can go from (x, y)
/// without leaving its own team in check.
pub open spec fn keep_safe(board: Board, piece: Piece, x: int, y: int, squares: Seq<(int, int)>) -> Seq<
    (int, int),
> {
    squares.filter(safe_test(board, piece, x, y))
}

/// The moves listed for `piece` on (x, y): nothing where (x, y) is no square
/// of the board; else the squares it reaches by the shape of its move, and
/// with `filter_check` only those of them that do not leave its own team in
/// check.
pub open spec fn listed_moves(piece: Piece, x: int, y: int, board: Board, filter_check: bool) -> Seq<
    (int, int),
> {
    if !on_board(x, y) {
        Seq::empty()
    } else if filter_check {
        keep_safe(board, piece, x, y, pseudo_moves(piece, x, y, board))
    } else {
        pseudo_moves(piece, x, y, board)
    }
}

/// The legal moves of the piece that stands on (x, y).
pub open spec fn legal_squares(board: Board, x: int, y: int) -> Seq<(int, int)> {
    listed_moves(board[x][y], x, y, board, true)
}

/// Whether some square of the board holds a piece of `team`.
pub open spec fn has_piece(team: Team, board: Board) -> bool {
    exists|x: int, y: int| on_board(x, y) && #[trigger] board[x][y].is_piece_of(team)
}

/// Whether `team` has a piece on the board and none of its pieces has a
/// legal move. This holds in a stalemate and in a checkmate alike: they
/// differ in whether `team` is in check.
pub open spec fn no_legal_move(team: Team, board: Board) -> bool {
    has_piece(team, board) && forall|x: int, y: int|
        on_board(x, y) && #[trigger] board[x][y].is_piece_of(team) ==> legal_squares(board, x, y).len()
            == 0
}

/// Check is attack: `team` is in check exactly where some square (x, y)
/// holds a piece that stands against `team` and whose moves, by their shape,
/// include a square (kx, ky) that holds a king of `team`.
pub proof fn lemma_check_is_attack(team: Team, board: Board)
    ensures
        in_check(team, board) <==> exists|x: int, y: int, kx: int, ky: int|
            on_board(x, y) && opposes(board[x][y], team) && #[trigger] pseudo_moves(
                board[x][y],
                x,
                y,
                board,
            ).contains((kx, ky)) && holds_king_of(board, team, (kx, ky)),
{
    if in_check(team, board) {
        let (x, y) = choose|x: int, y: int| on_board(x, y) && #[trigger] attacks_king(board, team, x, y);
        let reached = pseudo_moves(board[x][y], x, y, board);
        let k = choose|k: int| 0 <= k < reached.len() && holds_king_of(board, team, #[trigger] reached[k]);
        assert(reached.contains(reached[k]));
        assert(on_board(x, y) && opposes(board[x][y], team) && pseudo_moves(
            board[x][y],
            x,
            y,
            board,
        ).contains((reached[k].0, reached[k].1)) && holds_king_of(
            board,
            team,
            (reached[k].0, reached[k].1),
        ));
    }
    if exists|x: int, y: int, kx: int, ky: int|
        on_board(x, y) && opposes(board[x][y], team) && #[trigger] pseudo_moves(
            board[x][y],
            x,
            y,
            board,
        ).contains((kx, ky)) && holds_king_of(board, team, (kx, ky)) {
        let (x, y, kx, ky) = choose|x: int, y: int, kx: int, ky: int|
            on_board(x, y) && opposes(board[x][y], team) && #[trigger] pseudo_moves(
                board[x][y],
                x,
                y,
                board,
            ).contains((kx, ky)) && holds_king_of(board, team, (kx, ky));
        let reached = pseudo_moves(board[x][y], x, y, board);
        let k = choose|k: int| 0 <= k < reached.len() && reached[k] == (kx, ky);
        assert(holds_king_of(board, team, reached[k]));
        assert(attacks_king(board, team, x, y));
    }
}

/// A board without pieces is quiet: no team is in check on it, and no team
/// counts as being without a legal move.
pub proof fn lemma_no_pieces_no_check(team: Team, board: Board)
    requires
        forall|x: int, y: int| on_board(x, y) ==> (#[trigger] board[x][y]).piece_type == PieceType::Empty,
    ensures
        !in_check(team, board),
        !no_legal_move(team, board),
{
}

/// Filtering twice by one test keeps what filtering once keeps.
pub proof fn lemma_filter_twice<A>(list: Seq<A>, test: spec_fn(A) -> bool)
    ensures
        list.filter(test).filter(test) == list.filter(test),
    decreases list.len(),
{
    if list.len() == 0 {
        assert(list.filter(test) =~= list) by {
            list.lemma_filter_len(test);
        }
    } else {
        let front = list.drop_last();
        assert(list =~= front.push(list.last()));
        front.lemma_filter_push(list.last(), test);
        lemma_filter_twice(front, test);
        if test(list.last()) {
            front.filter(test).lemma_filter_push(list.last(), test);
        }
    }
}

/// The filter for safe moves excludes no move twice: applied to a list that
/// it has already filtered, it hands the list back as it is.
pub proof fn lemma_keep_safe_idempotent(
    board: Board,
    piece: Piece,
    x: int,
    y: int,
    squares: Seq<(int, int)>,
)
    ensures
        keep_safe(board, piece, x, y, keep_safe(board, piece, x, y, squares)) == keep_safe(
            board,
            piece,
            x,
            y,
            squares,
        ),
{
    lemma_filter_twice(squares, safe_test(board, piece, x, y));
}

/// The moves listed with the filter for check are already safe: filtering
/// them again changes nothing.
pub proof fn lemma_listed_moves_are_safe(piece: Piece, x: int, y: int, board: Board)
    ensures
        keep_safe(board, piece, x, y, listed_moves(piece, x, y, board, true)) == listed_moves(
            piece,
            x,
            y,
            board,
            true,
        ),
{
    if on_board(x, y) {
        lemma_keep_safe_idempotent(board, piece, x, y, pseudo_moves(piece, x, y, board));
    } else {
        let none = Seq::<(int, int)>::empty();
        none.lemma_filter_len(safe_test(board, piece, x, y));
        assert(none.filter(safe_test(board, piece, x, y)) =~= none);
    }
}

/// Whether one of `moves` lands on a king of `team`.
fn lands_on_king(moves: &Vec<[isize; 2]>, team: Team, board: &Board) -> (found: bool)
    requires
        all_on_board(moves@),
    ensures
        found == reaches_king(*board, team, squares_of(moves@)),
{
    let mut i: usize = 0;
    while i < moves.len()
        invariant
            i <= moves@.len(),
            all_on_board(moves@),
            forall|k: int| 0 <= k < i ==> !holds_king_of(*board, team, #[trigger] squares_of(moves@)[k]),
        decreases moves@.len() - i,
    {
        let target = moves[i];
        let piece = board[target[0] as usize][target[1] as usize];
        if piece.piece_type == PieceType::King && piece.team == team {
            assert(holds_king_of(*board, team, squares_of(moves@)[i as int]));
            return true;
        }
        i = i + 1;
    }
    false
}

/// Whether a king of `team` is attacked on `board`: whether any piece of
/// another team reaches, by the shape of its move, a square that holds a king
/// of `team`.
pub fn is_in_check(team: Team, board: &Board) -> (check: bool)
    ensures
        check == in_check(team, *board),
{
    let mut y: isize = 7;
    while y >= 0
        invariant
            -1 <= y <= 7,
            forall|i: int, j: int| on_board(i, j) && j > y ==> !#[trigger] attacks_king(*board, team, i, j),
        decreases y + 1,
    {
        let mut x: isize = 0;
        while x <= 7
            invariant
                0 <= y <= 7,
                0 <= x <= 8,
                forall|i: int, j: int|
                    on_board(i, j) && (j > y || (j == y && i < x)) ==> !#[trigger] attacks_king(
                        *board,
                        team,
                        i,
                        j,
                    ),
            decreases 8 - x,
        {
            let piece = board[x as usize][y as usize];
            if piece.team != team && piece.piece_type != PieceType::Empty {
                let moves = pseudo_legal_moves(piece, [x, y], board);
                if lands_on_king(&moves, team, board) {
                    assert(attacks_king(*board, team, x as int, y as int));
                    return true;
                }
            }
            x = x + 1;
        }
        y = y - 1;
    }
    false
}

/// Whether the team of `piece` is in check once `piece` has gone from `pos`
/// to `new_pos`. The board itself is left as it is: the move is played on a
/// copy.
pub fn move_leaves_in_check(piece: Piece, pos: [isize; 2], new_pos: [isize; 2], board: &Board) -> (check: bool)
    requires
        on_board(pos[0] as int, pos[1] as int),
        on_board(new_pos[0] as int, new_pos[1] as int),
    ensures
        check == leaves_in_check(
            *board,
            piece,
            pos[0] as int,
            pos[1] as int,
            (new_pos[0] as int, new_pos[1] as int),
        ),
{
    let mut temp_board: Board = *board;
    temp_board[pos[0] as usize][pos[1] as usize].piece_type = PieceType::Empty;
    temp_board[pos[0] as usize][pos[1] as usize].team = Team::Unassigned;
    temp_board[new_pos[0] as usize][new_pos[1] as usize] = piece;
    proof {
        let x = pos[0] as int;
        let y = pos[1] as int;
        let nx = new_pos[0] as int;
        let ny = new_pos[1] as int;
        let vacated = with_piece(*board, x, y, board[x][y].vacated());
        lemma_with_piece(*board, x, y, board[x][y].vacated());
        lemma_with_piece(vacated, nx, ny, piece);
        lemma_board_equal(temp_board, board_after(*board, piece, x, y, nx, ny));
    }
    is_in_check(piece.team, &temp_board)
}

/// Those of `moves`, in their order, to which `piece` can go from `pos`
/// without leaving its own team in check.
pub fn filter_safe(piece: Piece, pos: [isize; 2], board: &Board, moves: Vec<[isize; 2]>) -> (kept: Vec<
    [isize; 2],
>)
    requires
        on_board(pos[0] as int, pos[1] as int),
        all_on_board(moves@),
    ensures
        squares_of(kept@) == keep_safe(
            *board,
            piece,
            pos[0] as int,
            pos[1] as int,
            squares_of(moves@),
        ),
        all_on_board(kept@),
{
    let mut kept: Vec<[isize; 2]> = Vec::new();
    let ghost test = safe_test(*board, piece, pos[0] as int, pos[1] as int);
    let ghost all = squares_of(moves@);
    let mut i: usize = 0;
    proof {
        assert(all.take(0) =~= Seq::<(int, int)>::empty());
        assert(squares_of(kept@) =~= all.take(0).filter(test));
    }
    while i < moves.len()
        invariant
            i <= moves@.len(),
            on_board(pos[0] as int, pos[1] as int),
            all_on_board(moves@),
            all_on_board(kept@),
            all == squares_of(moves@),
            test == safe_test(*board, piece, pos[0] as int, pos[1] as int),
            squares_of(kept@) == all.take(i as int).filter(test),
        decreases moves@.len() - i,
    {
        let new_pos = moves[i];
        let ghost before = squares_of(kept@);
        proof {
            lemma_filter_take_next(all, i as int, test);
        }
        if !move_leaves_in_check(piece, pos, new_pos, board) {
            kept.push(new_pos);
            proof {
                assert(squares_of(kept@) =~= before.push(all[i as int]));
            }
        }
        i = i + 1;
    }
    proof {
        assert(all.take(i as int) =~= all);
    }
    kept
}

/// The moves listed for `piece`, standing on `pos`: the squares it reaches by
/// the shape of its move, and with `filter_check` only those of them that do
/// not leave its own team in check. Where `pos` is no square of the board the
/// list is empty.
pub fn final_move_list(piece: Piece, pos: [isize; 2], board: &Board, filter_check: bool) -> (list: Vec<
    [isize; 2],
>)
    ensures
        squares_of(list@) == listed_moves(piece, pos[0] as int, pos[1] as int, *board, filter_check),
        all_on_board(list@),
{
    if !(0 <= pos[0] && pos[0] <= 7 && 0 <= pos[1] && pos[1] <= 7) {
        let temp_vector: Vec<[isize; 2]> = Vec::new();
        proof {
            assert(squares_of(temp_vector@) =~= Seq::<(int, int)>::empty());
        }
        return temp_vector;
    }
    let temp_vector = pseudo_legal_moves(piece, pos, board);
    if filter_check == true {
        filter_safe(piece, pos, board, temp_vector)
    } else {
        temp_vector
    }
}

/// The legal moves of the piece that stands on `origin`: the squares that it
/// reaches by the shape of its move without leaving its own team in check.
/// Where `origin` is no square of the board, or holds no piece, there are
/// none.
pub fn legal_moves(board: &Board, origin: [isize; 2]) -> (list: Vec<[isize; 2]>)
    ensures
        squares_of(list@) == legal_squares(*board, origin[0] as int, origin[1] as int),
        all_on_board(list@),
{
    if 0 <= origin[0] && origin[0] <= 7 && 0 <= origin[1] && origin[1] <= 7 {
        let piece = board[origin[0] as usize][origin[1] as usize];
        final_move_list(piece, origin, board, true)
    } else {
        let temp_vector: Vec<[isize; 2]> = Vec::new();
        proof {
            assert(squares_of(temp_vector@) =~= Seq::<(int, int)>::empty());
        }
        temp_vector
    }
}

/// Whether `team` has a piece on the board and none of its pieces has a legal
/// move. The answer is the same in a stalemate and in a checkmate: a caller
/// tells them apart by `is_in_check`. A team with no piece on the board is
/// not stalemated.
pub fn is_stalemate(team: Team, board: &Board) -> (stalemate: bool)
    ensures
        stalemate == no_legal_move(team, *board),
{
    let mut found_piece = false;
    let mut y: isize = 7;
    while y >= 0
        invariant
            -1 <= y <= 7,
            forall|i: int, j: int|
                on_board(i, j) && j > y && #[trigger] board[i][j].is_piece_of(team) ==> found_piece
                    && legal_squares(*board, i, j).len() == 0,
            found_piece ==> has_piece(team, *board),
        decreases y + 1,
    {
        let mut x: isize = 0;
        while x <= 7
            invariant
                0 <= y <= 7,
                0 <= x <= 8,
                forall|i: int, j: int|
                    on_board(i, j) && (j > y || (j == y && i < x)) && #[trigger] board[i][j].is_piece_of(
                        team,
                    ) ==> found_piece && legal_squares(*board, i, j).len() == 0,
                found_piece ==> has_piece(team, *board),
            decreases 8 - x,
        {
            let piece = board[x as usize][y as usize];
            if piece.team == team && piece.piece_type != PieceType::Empty {
                found_piece = true;
                assert(board[x as int][y as int].is_piece_of(team));
                let moves = final_move_list(piece, [x, y], board, true);
                if moves.is_empty() == false {
                    assert(squares_of(moves@).len() == moves@.len());
                    return false;
                }
                assert(squares_of(moves@).len() == moves@.len());
            }
            x = x + 1;
        }
        y = y - 1;
    }
    if found_piece == false {
        return false;
    }
    return true;
}

} // verus!
