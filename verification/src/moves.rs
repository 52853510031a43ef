//! Move generation: the squares a piece can reach by the shape of its move,
//! before asking whether the move leaves its own king attacked.

use vstd::prelude::*;
use crate::board::{on_board, Board};
use crate::pieces::{Direction, Piece, PieceType, Team};

verus! {

/// The square that a coordinate pair names.
pub open spec fn square_of(pos: [isize; 2]) -> (int, int) {
    (pos[0] as int, pos[1] as int)
}

/// The squares that a list of coordinate pairs names, in the list's order.
pub open spec fn squares_of(list: Seq<[isize; 2]>) -> Seq<(int, int)> {
    list.map_values(|pos: [isize; 2]| square_of(pos))
}

/// Whether every coordinate pair of the list names a square of the board.
pub open spec fn all_on_board(list: Seq<[isize; 2]>) -> bool {
    forall|k: int|
        0 <= k < list.len() ==> on_board(#[trigger] list[k][0] as int, list[k][1] as int)
}

/// The squares reached by walking from (x, y), which is not itself counted,
/// in steps of (dx, dy), for at most `steps` steps. A step that leaves
/// the board contributes nothing. The walk ends before a square that holds
/// `team`; it passes over a square of no team and lists it; on a square of
/// any other team it ends, and lists that square where `can_capture` is set.
pub open spec fn ray(
    board: Board,
    team: Team,
    x: int,
    y: int,
    dx: int,
    dy: int,
    steps: int,
    can_capture: bool,
) -> Seq<(int, int)>
    decreases steps,
{
    if steps <= 0 {
        Seq::empty()
    } else {
        let nx = x + dx;
        let ny = y + dy;
        if !on_board(nx, ny) {
            ray(board, team, nx, ny, dx, dy, steps - 1, can_capture)
        } else if board[nx][ny].team == team {
            Seq::empty()
        } else if board[nx][ny].team == Team::Unassigned {
            seq![(nx, ny)] + ray(board, team, nx, ny, dx, dy, steps - 1, can_capture)
        } else if can_capture {
            seq![(nx, ny)]
        } else {
            Seq::empty()
        }
    }
}

/// The ray from (x, y) in a compass direction.
pub open spec fn slide(
    board: Board,
    team: Team,
    x: int,
    y: int,
    direction: Direction,
    steps: int,
    can_capture: bool,
) -> Seq<(int, int)> {
    ray(board, team, x, y, direction.offset().0, direction.offset().1, steps, can_capture)
}

/// Whether a piece of `team` may land on (x, y) by a fixed-offset move: the
/// square is on the board and does not hold `team`, and where `enemy_only`
/// is set it holds some team.
pub open spec fn lands_on(board: Board, team: Team, x: int, y: int, enemy_only: bool) -> bool {
    on_board(x, y) && board[x][y].team != team && (enemy_only ==> board[x][y].team
        != Team::Unassigned)
}

/// The function that shifts an offset by (x, y).
pub open spec fn shift_by(x: int, y: int) -> spec_fn((int, int)) -> (int, int) {
    |offset: (int, int)| (x + offset.0, y + offset.1)
}

/// The test `lands_on` as a function of the square.
pub open spec fn landing_test(board: Board, team: Team, enemy_only: bool) -> spec_fn(
    (int, int),
) -> bool {
    |square: (int, int)| lands_on(board, team, square.0, square.1, enemy_only)
}

/// The squares (x, y) + offset, for each offset in order, on which a piece
/// of `team` may land.
pub open spec fn offset_targets(
    board: Board,
    team: Team,
    x: int,
    y: int,
    offsets: Seq<(int, int)>,
    enemy_only: bool,
) -> Seq<(int, int)> {
    offsets.map_values(shift_by(x, y)).filter(landing_test(board, team, enemy_only))
}

/// Filtering one element more of a sequence: the element is appended where
/// it passes the test, and the result stays as it was where it does not.
pub proof fn lemma_filter_take_next<A>(list: Seq<A>, i: int, test: spec_fn(A) -> bool)
    requires
        0 <= i < list.len(),
    ensures
        list.take(i + 1).filter(test) == if test(list[i]) {
            list.take(i).filter(test).push(list[i])
        } else {
            list.take(i).filter(test)
        },
{
    assert(list.take(i + 1) =~= list.take(i).push(list[i]));
    list.take(i).lemma_filter_push(list[i], test);
}

/// The offsets of a king's move: the eight neighbouring squares, clockwise
/// from the north.
pub open spec fn king_offsets() -> Seq<(int, int)> {
    seq![(0, 1), (1, 1), (1, 0), (1, -1), (0, -1), (-1, -1), (-1, 0), (-1, 1)]
}

/// The offsets of a knight's move.
pub open spec fn knight_offsets() -> Seq<(int, int)> {
    seq![(1, 2), (2, 1), (2, -1), (1, -2), (-1, 2), (-2, 1), (-2, -1), (-1, -2)]
}

/// The offsets of a pawn's capture: one rank forward for `forward`, one
/// file to either side.
pub open spec fn pawn_capture_offsets(forward: int) -> Seq<(int, int)> {
    seq![(-1, forward), (1, forward)]
}

/// The rays of a rook: north, east, south, west, in this order.
pub open spec fn rook_moves(board: Board, team: Team, x: int, y: int) -> Seq<(int, int)> {
    slide(board, team, x, y, Direction::North, 8, true) + slide(
        board,
        team,
        x,
        y,
        Direction::East,
        8,
        true,
    ) + slide(board, team, x, y, Direction::South, 8, true) + slide(
        board,
        team,
        x,
        y,
        Direction::West,
        8,
        true,
    )
}

/// The rays of a bishop: north-east, south-east, south-west, north-west, in
/// this order.
pub open spec fn bishop_moves(board: Board, team: Team, x: int, y: int) -> Seq<(int, int)> {
    slide(board, team, x, y, Direction::NorthEast, 8, true) + slide(
        board,
        team,
        x,
        y,
        Direction::SouthEast,
        8,
        true,
    ) + slide(board, team, x, y, Direction::SouthWest, 8, true) + slide(
        board,
        team,
        x,
        y,
        Direction::NorthWest,
        8,
        true,
    )
}

/// The moves of a pawn that advances in `direction`, whose rank step is
/// `forward`: one step straight ahead, or up to two where it has not moved
/// yet, onto squares of no team only; then the captures, one step diagonally
/// ahead onto a square of another team.
pub open spec fn pawn_moves(
    board: Board,
    piece: Piece,
    x: int,
    y: int,
    direction: Direction,
    forward: int,
) -> Seq<(int, int)> {
    slide(
        board,
        piece.team,
        x,
        y,
        direction,
        if piece.moved {
            1
        } else {
            2
        },
        false,
    ) + offset_targets(board, piece.team, x, y, pawn_capture_offsets(forward), true)
}

/// The squares that `piece`, standing on (x, y), reaches by the shape of its
/// move. A bishop, a rook and a queen slide along their rays until blocked; a
/// king and a knight jump by their offsets onto any square that their own
/// team does not hold; a white pawn advances towards rank 7 and a black pawn
/// towards rank 0. Anything else reaches nothing.
pub open spec fn pseudo_moves(piece: Piece, x: int, y: int, board: Board) -> Seq<(int, int)> {
    match piece.piece_type {
        PieceType::Bishop => bishop_moves(board, piece.team, x, y),
        PieceType::Rook => rook_moves(board, piece.team, x, y),
        PieceType::Queen => rook_moves(board, piece.team, x, y) + bishop_moves(
            board,
            piece.team,
            x,
            y,
        ),
        PieceType::King => offset_targets(board, piece.team, x, y, king_offsets(), false),
        PieceType::Knight => offset_targets(board, piece.team, x, y, knight_offsets(), false),
        PieceType::Pawn => match piece.team {
            Team::Black => pawn_moves(board, piece, x, y, Direction::South, -1),
            Team::White => pawn_moves(board, piece, x, y, Direction::North, 1),
            Team::Unassigned => Seq::empty(),
        },
        PieceType::Empty => Seq::empty(),
    }
}

/// The unit step of a direction, as machine integers.
fn direction_step(direction: Direction) -> (step: (i128, i128))
    ensures
        step.0 == direction.offset().0,
        step.1 == direction.offset().1,
{
    match direction {
        Direction::North => (0, 1),
        Direction::East => (1, 0),
        Direction::South => (0, -1),
        Direction::West => (-1, 0),
        Direction::NorthEast => (1, 1),
        Direction::SouthEast => (1, -1),
        Direction::NorthWest => (-1, 1),
        Direction::SouthWest => (-1, -1),
    }
}

/// The squares that `piece` reaches by sliding from `pos` in `direction`, for
/// at most `length` steps: the ray of `piece.team`.
pub fn move_list(
    pos: [isize; 2],
    piece: Piece,
    board: &Board,
    direction: Direction,
    length: isize,
    can_capture: bool,
) -> (list: Vec<[isize; 2]>)
    ensures
        squares_of(list@) == slide(
            *board,
            piece.team,
            pos[0] as int,
            pos[1] as int,
            direction,
            length as int,
            can_capture,
        ),
        all_on_board(list@),
{
    let mut temp_vector: Vec<[isize; 2]> = Vec::new();
    let (dx, dy) = direction_step(direction);
    let mut cx: i128 = pos[0] as i128;
    let mut cy: i128 = pos[1] as i128;
    let mut i: isize = 0;
    let mut blocked = false;
    let ghost whole = slide(
        *board,
        piece.team,
        pos[0] as int,
        pos[1] as int,
        direction,
        length as int,
        can_capture,
    );
    proof {
        assert(squares_of(temp_vector@) + whole =~= whole);
    }
    while i < length && !blocked
        invariant
            0 <= i,
            -1 <= dx <= 1,
            -1 <= dy <= 1,
            pos[0] - i <= cx <= pos[0] + i,
            pos[1] - i <= cy <= pos[1] + i,
            squares_of(temp_vector@) + ray(
                *board,
                piece.team,
                cx as int,
                cy as int,
                dx as int,
                dy as int,
                if blocked {
                    0
                } else {
                    length - i
                },
                can_capture,
            ) == whole,
            all_on_board(temp_vector@),
        decreases (if blocked { 0 } else { length - i }),
    {
        let ghost before = squares_of(temp_vector@);
        let ghost rest = ray(
            *board,
            piece.team,
            cx + dx,
            cy + dy,
            dx as int,
            dy as int,
            length - i - 1,
            can_capture,
        );
        cx = cx + dx;
        cy = cy + dy;
        i = i + 1;
        if 0 <= cx && cx <= 7 && 0 <= cy && cy <= 7 {
            let new_pos: [isize; 2] = [cx as isize, cy as isize];
            let new_team = board[cx as usize][cy as usize].team;
            if new_team == piece.team {
                blocked = true;
                proof {
                    assert(before + Seq::<(int, int)>::empty() =~= before);
                }
            } else if new_team == Team::Unassigned {
                temp_vector.push(new_pos);
                proof {
                    assert(squares_of(temp_vector@) =~= before.push((cx as int, cy as int)));
                    assert(before.push((cx as int, cy as int)) + rest =~= before + (seq![
                        (cx as int, cy as int),
                    ] + rest));
                }
            } else {
                if can_capture {
                    temp_vector.push(new_pos);
                    proof {
                        assert(squares_of(temp_vector@) =~= before.push((cx as int, cy as int)));
                        assert(before.push((cx as int, cy as int)) + Seq::<(int, int)>::empty()
                            =~= before + seq![(cx as int, cy as int)]);
                    }
                } else {
                    proof {
                        assert(before + Seq::<(int, int)>::empty() =~= before);
                    }
                }
                blocked = true;
            }
        }
    }
    proof {
        assert(squares_of(temp_vector@) + Seq::<(int, int)>::empty() =~= squares_of(
            temp_vector@,
        ));
    }
    temp_vector
}

/// The squares `pos` + offset, for each offset of `new_pos` in order, on which
/// `piece` may land.
pub fn attack_list(
    pos: [isize; 2],
    piece: Piece,
    board: &Board,
    new_pos: Vec<[isize; 2]>,
    enemy_only: bool,
) -> (list: Vec<[isize; 2]>)
    ensures
        squares_of(list@) == offset_targets(
            *board,
            piece.team,
            pos[0] as int,
            pos[1] as int,
            squares_of(new_pos@),
            enemy_only,
        ),
        all_on_board(list@),
{
    let mut temp_vector: Vec<[isize; 2]> = Vec::new();
    let ghost shifted = squares_of(new_pos@).map_values(shift_by(pos[0] as int, pos[1] as int));
    let ghost test = landing_test(*board, piece.team, enemy_only);
    let mut i: usize = 0;
    proof {
        assert(shifted.take(0) =~= Seq::<(int, int)>::empty());
        assert(squares_of(temp_vector@) =~= shifted.take(0).filter(test));
    }
    while i < new_pos.len()
        invariant
            i <= new_pos@.len(),
            shifted == squares_of(new_pos@).map_values(shift_by(pos[0] as int, pos[1] as int)),
            test == landing_test(*board, piece.team, enemy_only),
            squares_of(temp_vector@) == shifted.take(i as int).filter(test),
            all_on_board(temp_vector@),
        decreases new_pos@.len() - i,
    {
        let element = new_pos[i];
        let nx: i128 = pos[0] as i128 + element[0] as i128;
        let ny: i128 = pos[1] as i128 + element[1] as i128;
        let ghost before = squares_of(temp_vector@);
        proof {
            assert(shifted.take(i + 1).drop_last() =~= shifted.take(i as int));
            assert(shifted.take(i + 1).last() == (nx as int, ny as int));
            assert(test((nx as int, ny as int)) == lands_on(
                *board,
                piece.team,
                nx as int,
                ny as int,
                enemy_only,
            ));
            lemma_filter_take_next(shifted, i as int, test);
        }
        if 0 <= nx && nx <= 7 && 0 <= ny && ny <= 7 {
            let new_element: [isize; 2] = [nx as isize, ny as isize];
            let enemy_team = board[nx as usize][ny as usize].team;
            if enemy_only == false {
                if enemy_team != piece.team {
                    temp_vector.push(new_element);
                    proof {
                        assert(squares_of(temp_vector@) =~= before.push((nx as int, ny as int)));
                    }
                }
            } else {
                if enemy_team != piece.team && enemy_team != Team::Unassigned {
                    temp_vector.push(new_element);
                    proof {
                        assert(squares_of(temp_vector@) =~= before.push((nx as int, ny as int)));
                    }
                }
            }
        }
        i = i + 1;
    }
    proof {
        assert(shifted.take(i as int) =~= shifted);
    }
    temp_vector
}

/// Moves the items of `more` to the end of `list`.
fn extend_list(list: &mut Vec<[isize; 2]>, more: Vec<[isize; 2]>)
    requires
        all_on_board(old(list)@),
        all_on_board(more@),
    ensures
        final(list)@ == old(list)@ + more@,
        squares_of(final(list)@) == squares_of(old(list)@) + squares_of(more@),
        all_on_board(final(list)@),
{
    let mut rest = more;
    list.append(&mut rest);
    proof {
        assert(squares_of(list@) =~= squares_of(old(list)@) + squares_of(more@));
    }
}

/// The four rays of a rook that stands on `pos`.
fn rook_list(piece: Piece, pos: [isize; 2], board: &Board) -> (list: Vec<[isize; 2]>)
    ensures
        squares_of(list@) == rook_moves(*board, piece.team, pos[0] as int, pos[1] as int),
        all_on_board(list@),
{
    let mut temp_vector = move_list(pos, piece, board, Direction::North, 8, true);
    let east = move_list(pos, piece, board, Direction::East, 8, true);
    let south = move_list(pos, piece, board, Direction::South, 8, true);
    let west = move_list(pos, piece, board, Direction::West, 8, true);
    extend_list(&mut temp_vector, east);
    extend_list(&mut temp_vector, south);
    extend_list(&mut temp_vector, west);
    temp_vector
}

/// The four rays of a bishop that stands on `pos`.
fn bishop_list(piece: Piece, pos: [isize; 2], board: &Board) -> (list: Vec<[isize; 2]>)
    ensures
        squares_of(list@) == bishop_moves(*board, piece.team, pos[0] as int, pos[1] as int),
        all_on_board(list@),
{
    let mut temp_vector = move_list(pos, piece, board, Direction::NorthEast, 8, true);
    let south_east = move_list(pos, piece, board, Direction::SouthEast, 8, true);
    let south_west = move_list(pos, piece, board, Direction::SouthWest, 8, true);
    let north_west = move_list(pos, piece, board, Direction::NorthWest, 8, true);
    extend_list(&mut temp_vector, south_east);
    extend_list(&mut temp_vector, south_west);
    extend_list(&mut temp_vector, north_west);
    temp_vector
}

/// The eight offsets of a king's move.
fn king_steps() -> (steps: Vec<[isize; 2]>)
    ensures
        squares_of(steps@) == king_offsets(),
{
    let steps: Vec<[isize; 2]> = vec![
        [0, 1],
        [1, 1],
        [1, 0],
        [1, -1],
        [0, -1],
        [-1, -1],
        [-1, 0],
        [-1, 1],
    ];
    proof {
        assert(squares_of(steps@) =~= king_offsets());
    }
    steps
}

/// The eight offsets of a knight's move.
fn knight_steps() -> (steps: Vec<[isize; 2]>)
    ensures
        squares_of(steps@) == knight_offsets(),
{
    let steps: Vec<[isize; 2]> = vec![
        [1, 2],
        [2, 1],
        [2, -1],
        [1, -2],
        [-1, 2],
        [-2, 1],
        [-2, -1],
        [-1, -2],
    ];
    proof {
        assert(squares_of(steps@) =~= knight_offsets());
    }
    steps
}

/// The two offsets of a pawn's capture, for the rank step `forward`.
fn pawn_capture_steps(forward: isize) -> (steps: Vec<[isize; 2]>)
    ensures
        squares_of(steps@) == pawn_capture_offsets(forward as int),
{
    let steps: Vec<[isize; 2]> = vec![[-1, forward], [1, forward]];
    proof {
        assert(squares_of(steps@) =~= pawn_capture_offsets(forward as int));
    }
    steps
}

/// The moves of a pawn that stands on `pos` and advances in `direction`.
fn pawn_list(
    piece: Piece,
    pos: [isize; 2],
    board: &Board,
    direction: Direction,
    forward: isize,
) -> (list: Vec<[isize; 2]>)
    ensures
        squares_of(list@) == pawn_moves(
            *board,
            piece,
            pos[0] as int,
            pos[1] as int,
            direction,
            forward as int,
        ),
        all_on_board(list@),
{
    let move_length: isize = if piece.moved == true {
        1
    } else {
        2
    };
    let mut temp_vector = move_list(pos, piece, board, direction, move_length, false);
    let attacks = attack_list(pos, piece, board, pawn_capture_steps(forward), true);
    extend_list(&mut temp_vector, attacks);
    temp_vector
}

/// The squares that `piece`, standing on `pos`, reaches by the shape of its
/// move, in the order in which the rays and offsets are listed.
pub fn pseudo_legal_moves(piece: Piece, pos: [isize; 2], board: &Board) -> (list: Vec<
    [isize; 2],
>)
    ensures
        squares_of(list@) == pseudo_moves(piece, pos[0] as int, pos[1] as int, *board),
        all_on_board(list@),
{
    match (piece.team, piece.piece_type) {
        (_, PieceType::Bishop) => bishop_list(piece, pos, board),
        (_, PieceType::Rook) => rook_list(piece, pos, board),
        (_, PieceType::Queen) => {
            let mut temp_vector = rook_list(piece, pos, board);
            let diagonals = bishop_list(piece, pos, board);
            extend_list(&mut temp_vector, diagonals);
            temp_vector
        },
        (_, PieceType::King) => attack_list(pos, piece, board, king_steps(), false),
        (_, PieceType::Knight) => attack_list(pos, piece, board, knight_steps(), false),
        (Team::Black, PieceType::Pawn) => pawn_list(piece, pos, board, Direction::South, -1),
        (Team::White, PieceType::Pawn) => pawn_list(piece, pos, board, Direction::North, 1),
        (_, _) => {
            let temp_vector: Vec<[isize; 2]> = Vec::new();
            proof {
                assert(squares_of(temp_vector@) =~= Seq::<(int, int)>::empty());
            }
            temp_vector
        },
    }
}

} // verus!
