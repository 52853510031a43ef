use chess_again::{
    apply_move, calculate_advantage, castle, create_board, create_piece, empty_board, en_passant,
    Board, Piece, PieceType, Team,
};

fn empty() -> Piece {
    create_piece(PieceType::Empty, Team::Unassigned)
}

fn castling_board() -> Board {
    let mut board = empty_board();
    board[4][0] = create_piece(PieceType::King, Team::White);
    board[0][0] = create_piece(PieceType::Rook, Team::White);
    board[7][0] = create_piece(PieceType::Rook, Team::White);
    board[4][7] = create_piece(PieceType::King, Team::Black);
    board[0][7] = create_piece(PieceType::Rook, Team::Black);
    board[7][7] = create_piece(PieceType::Rook, Team::Black);
    board
}

#[test]
fn apply_move_relocates_and_records() {
    let mut board = create_board();
    let before = board;
    let mut history: Vec<Board> = vec![];
    assert!(apply_move(&mut board, [4, 1], [4, 3], &mut history));
    assert_eq!(history, vec![before]);
    let mut pawn = create_piece(PieceType::Pawn, Team::White);
    pawn.moved = true;
    assert_eq!(board[4][3], pawn);
    assert_eq!(board[4][1], empty());
    for x in 0..8 {
        for y in 0..8 {
            if (x, y) != (4, 1) && (x, y) != (4, 3) {
                assert_eq!(board[x][y], before[x][y]);
            }
        }
    }
}

#[test]
fn apply_move_captures_and_keeps_the_flag_of_the_origin() {
    let mut board = empty_board();
    let mut rook = create_piece(PieceType::Rook, Team::White);
    rook.moved = true;
    board[0][0] = rook;
    board[0][5] = create_piece(PieceType::Queen, Team::Black);
    let mut history: Vec<Board> = vec![];
    assert!(apply_move(&mut board, [0, 0], [0, 5], &mut history));
    assert_eq!(board[0][5], rook);
    assert_eq!(
        board[0][0],
        Piece { piece_type: PieceType::Empty, team: Team::Unassigned, moved: true }
    );
    assert_eq!(calculate_advantage(&board), (5, 0));
}

#[test]
fn apply_move_puts_the_latest_board_first() {
    let mut board = create_board();
    let first = board;
    let mut history: Vec<Board> = vec![];
    assert!(apply_move(&mut board, [4, 1], [4, 3], &mut history));
    let second = board;
    assert!(apply_move(&mut board, [4, 6], [4, 4], &mut history));
    assert_eq!(history, vec![second, first]);
}

#[test]
fn apply_move_outside_the_board_changes_nothing() {
    let mut board = create_board();
    let before = board;
    let mut history: Vec<Board> = vec![before];
    assert!(!apply_move(&mut board, [4, 1], [4, 8], &mut history));
    assert!(!apply_move(&mut board, [-1, 1], [4, 3], &mut history));
    assert!(!apply_move(&mut board, [8, 0], [0, 0], &mut history));
    assert_eq!(board, before);
    assert_eq!(history, vec![before]);
}

#[test]
fn a_move_is_undone_from_the_history() {
    let mut board = create_board();
    board[4][3] = create_piece(PieceType::Knight, Team::Black);
    let before = board;
    let mut history: Vec<Board> = vec![];
    // The knight captures the white pawn on (5, 1).
    assert!(apply_move(&mut board, [4, 3], [5, 1], &mut history));
    assert_ne!(board, before);
    let snapshot = history[0];
    assert_eq!(snapshot, before);
    board[4][3] = snapshot[4][3];
    board[5][1] = snapshot[5][1];
    assert_eq!(board, before);
}

#[test]
fn white_castles_on_the_kings_side() {
    let mut board = castling_board();
    let before = board;
    let mut team = Team::White;
    let mut history: Vec<Board> = vec![];
    assert!(castle(true, 6, 0, &mut board, 4, 0, &mut team, &mut history));
    assert_eq!(team, Team::Black);
    assert_eq!(history, vec![before]);
    assert_eq!(
        board[6][0],
        Piece { piece_type: PieceType::King, team: Team::White, moved: true }
    );
    assert_eq!(
        board[5][0],
        Piece { piece_type: PieceType::Rook, team: Team::White, moved: false }
    );
    assert_eq!(board[4][0], empty());
    assert_eq!(board[7][0], empty());
    assert_eq!(board[0][0], before[0][0]);
    assert_eq!(board[4][7], before[4][7]);
}

#[test]
fn white_castles_on_the_queens_side() {
    let mut board = castling_board();
    let before = board;
    let mut team = Team::White;
    let mut history: Vec<Board> = vec![];
    assert!(castle(true, 2, 0, &mut board, 4, 0, &mut team, &mut history));
    assert_eq!(team, Team::Black);
    assert_eq!(history, vec![before]);
    assert_eq!(
        board[2][0],
        Piece { piece_type: PieceType::King, team: Team::White, moved: true }
    );
    assert_eq!(
        board[3][0],
        Piece { piece_type: PieceType::Rook, team: Team::White, moved: false }
    );
    assert_eq!(board[4][0], empty());
    assert_eq!(board[0][0], empty());
    assert_eq!(board[1][0], empty());
    assert_eq!(board[7][0], before[7][0]);
}

#[test]
fn black_castles_on_either_side() {
    let mut board = castling_board();
    let mut team = Team::Black;
    let mut history: Vec<Board> = vec![];
    assert!(castle(true, 6, 7, &mut board, 4, 7, &mut team, &mut history));
    assert_eq!(team, Team::White);
    assert_eq!(board[6][7].piece_type, PieceType::King);
    assert_eq!(board[6][7].team, Team::Black);
    assert!(board[6][7].moved);
    assert_eq!(
        board[5][7],
        Piece { piece_type: PieceType::Rook, team: Team::Black, moved: false }
    );
    assert_eq!(board[4][7], empty());
    assert_eq!(board[7][7], empty());

    let mut board = castling_board();
    let mut team = Team::Black;
    assert!(castle(true, 2, 7, &mut board, 4, 7, &mut team, &mut history));
    assert_eq!(board[2][7].piece_type, PieceType::King);
    assert_eq!(board[3][7].piece_type, PieceType::Rook);
    assert_eq!(board[3][7].team, Team::Black);
    assert_eq!(board[0][7], empty());
    assert_eq!(board[4][7], empty());
    assert_eq!(history.len(), 2);
}

fn assert_no_castle(board: Board, can_castle: bool, x: i32, y: i32, sx: i32, sy: i32, team: Team) {
    let mut after = board;
    let mut turn = team;
    let mut history: Vec<Board> = vec![create_board()];
    assert!(!castle(can_castle, x, y, &mut after, sx, sy, &mut turn, &mut history));
    assert_eq!(after, board);
    assert_eq!(turn, team);
    assert_eq!(history, vec![create_board()]);
}

#[test]
fn castling_needs_a_clear_path() {
    for file in [5, 6] {
        let mut board = castling_board();
        board[file][0] = create_piece(PieceType::Knight, Team::White);
        assert_no_castle(board, true, 6, 0, 4, 0, Team::White);
        board[file][0] = create_piece(PieceType::Knight, Team::Black);
        assert_no_castle(board, true, 6, 0, 4, 0, Team::White);
    }
    for file in [1, 2, 3] {
        let mut board = castling_board();
        board[file][0] = create_piece(PieceType::Bishop, Team::White);
        assert_no_castle(board, true, 2, 0, 4, 0, Team::White);
        let mut board = castling_board();
        board[file][7] = create_piece(PieceType::Bishop, Team::White);
        assert_no_castle(board, true, 2, 7, 4, 7, Team::Black);
    }
}

#[test]
fn castling_needs_unmoved_pieces() {
    let mut board = castling_board();
    board[4][0].moved = true;
    assert_no_castle(board, true, 6, 0, 4, 0, Team::White);
    assert_no_castle(board, true, 2, 0, 4, 0, Team::White);

    let mut board = castling_board();
    board[7][0].moved = true;
    assert_no_castle(board, true, 6, 0, 4, 0, Team::White);
    let mut after = board;
    let mut team = Team::White;
    let mut history: Vec<Board> = vec![];
    // The other rook has not moved.
    assert!(castle(true, 2, 0, &mut after, 4, 0, &mut team, &mut history));

    let mut board = castling_board();
    board[0][7].moved = true;
    assert_no_castle(board, true, 2, 7, 4, 7, Team::Black);
}

#[test]
fn castling_needs_the_flag_the_king_and_the_rook() {
    let board = castling_board();
    // Not allowed for the selection.
    assert_no_castle(board, false, 6, 0, 4, 0, Team::White);
    assert_no_castle(board, false, 2, 0, 4, 0, Team::White);
    assert_no_castle(board, false, 2, 7, 4, 7, Team::Black);
    // Not the side to move.
    assert_no_castle(board, true, 6, 0, 4, 0, Team::Black);
    assert_no_castle(board, true, 6, 7, 4, 7, Team::White);
    assert_no_castle(board, true, 6, 0, 4, 0, Team::Unassigned);
    // Not a castling square, or not on the home rank.
    assert_no_castle(board, true, 5, 0, 4, 0, Team::White);
    assert_no_castle(board, true, 6, 7, 4, 0, Team::White);
    assert_no_castle(board, true, 6, 1, 4, 0, Team::White);
    // The selection is not the king.
    assert_no_castle(board, true, 6, 0, 7, 0, Team::White);
    assert_no_castle(board, true, 6, 0, -4, 0, Team::White);
    assert_no_castle(board, true, 6, 0, 4, 100, Team::White);

    let mut no_rook = castling_board();
    no_rook[7][0] = empty();
    assert_no_castle(no_rook, true, 6, 0, 4, 0, Team::White);
    no_rook[7][0] = create_piece(PieceType::Queen, Team::White);
    assert_no_castle(no_rook, true, 6, 0, 4, 0, Team::White);

    let mut no_king = castling_board();
    no_king[4][0] = create_piece(PieceType::Queen, Team::White);
    assert_no_castle(no_king, true, 6, 0, 4, 0, Team::White);
}

#[test]
fn castling_is_not_possible_at_the_start() {
    assert_no_castle(create_board(), true, 6, 0, 4, 0, Team::White);
    assert_no_castle(create_board(), true, 2, 0, 4, 0, Team::White);
    assert_no_castle(create_board(), true, 6, 7, 4, 7, Team::Black);
    assert_no_castle(create_board(), true, 2, 7, 4, 7, Team::Black);
}

/// A black pawn on (4, 3) beside a white pawn that has just gone from
/// (3, 1) to (3, 3); the board before that step is first in the history.
fn white_passed() -> (Board, Vec<Board>) {
    let mut earlier = empty_board();
    earlier[4][0] = create_piece(PieceType::King, Team::White);
    earlier[4][7] = create_piece(PieceType::King, Team::Black);
    earlier[3][1] = create_piece(PieceType::Pawn, Team::White);
    let mut capturer = create_piece(PieceType::Pawn, Team::Black);
    capturer.moved = true;
    earlier[4][3] = capturer;
    let mut board = earlier;
    let mut history: Vec<Board> = vec![];
    assert!(apply_move(&mut board, [3, 1], [3, 3], &mut history));
    (board, history)
}

#[test]
fn black_captures_en_passant() {
    let (mut board, mut history) = white_passed();
    let before = board;
    let earlier = history[0];
    let mut team = Team::Black;
    assert!(en_passant(3, 2, &mut board, 4, 3, &mut team, &mut history));
    assert_eq!(team, Team::White);
    assert_eq!(history, vec![before, earlier]);
    assert_eq!(
        board[3][2],
        Piece { piece_type: PieceType::Pawn, team: Team::Black, moved: true }
    );
    assert_eq!(board[3][3].piece_type, PieceType::Empty);
    assert_eq!(board[3][3].team, Team::Unassigned);
    assert_eq!(board[4][3].piece_type, PieceType::Empty);
    assert_eq!(board[4][3].team, Team::Unassigned);
    assert_eq!(board[4][0], before[4][0]);
    assert_eq!(board[4][7], before[4][7]);
    assert_eq!(calculate_advantage(&before), (1, 1));
    assert_eq!(calculate_advantage(&board), (0, 1));
}

#[test]
fn white_captures_en_passant() {
    let mut earlier = empty_board();
    earlier[6][6] = create_piece(PieceType::Pawn, Team::Black);
    let mut capturer = create_piece(PieceType::Pawn, Team::White);
    capturer.moved = true;
    earlier[5][4] = capturer;
    let mut board = earlier;
    let mut history: Vec<Board> = vec![];
    assert!(apply_move(&mut board, [6, 6], [6, 4], &mut history));
    let before = board;
    let mut team = Team::White;
    assert!(en_passant(6, 5, &mut board, 5, 4, &mut team, &mut history));
    assert_eq!(team, Team::Black);
    assert_eq!(history, vec![before, earlier]);
    assert_eq!(
        board[6][5],
        Piece { piece_type: PieceType::Pawn, team: Team::White, moved: true }
    );
    assert_eq!(board[6][4].piece_type, PieceType::Empty);
    assert_eq!(board[5][4].piece_type, PieceType::Empty);
    assert_eq!(calculate_advantage(&board), (1, 0));
}

fn assert_no_en_passant(board: Board, history: Vec<Board>, x: i32, y: i32, sx: i32, sy: i32) {
    let mut after = board;
    let mut team = Team::Black;
    let mut record = history.clone();
    assert!(!en_passant(x, y, &mut after, sx, sy, &mut team, &mut record));
    assert_eq!(after, board);
    assert_eq!(team, Team::Black);
    assert_eq!(record, history);
}

#[test]
fn en_passant_needs_a_double_step_just_made() {
    let (board, history) = white_passed();
    // No history at all.
    assert_no_en_passant(board, vec![], 3, 2, 4, 3);
    // The pawn was not on its starting square one move ago.
    assert_no_en_passant(board, vec![board], 3, 2, 4, 3);
    // It had moved before.
    let mut stepped = history.clone();
    stepped[0][3][1].moved = true;
    assert_no_en_passant(board, stepped, 3, 2, 4, 3);
    // Only the front of the history counts.
    let mut longer = history.clone();
    longer.insert(0, board);
    assert_no_en_passant(board, longer, 3, 2, 4, 3);
}

#[test]
fn en_passant_needs_the_right_squares_and_pieces() {
    let (board, history) = white_passed();
    // Another rank or file.
    assert_no_en_passant(board, history.clone(), 3, 3, 4, 3);
    assert_no_en_passant(board, history.clone(), 3, 5, 4, 3);
    assert_no_en_passant(board, history.clone(), 2, 2, 4, 3);
    // Outside the board.
    assert_no_en_passant(board, history.clone(), -1, 2, 4, 3);
    assert_no_en_passant(board, history.clone(), 8, 2, 4, 3);
    assert_no_en_passant(board, history.clone(), 3, 2, 4, 8);
    assert_no_en_passant(board, history.clone(), 3, 2, -1, 3);
    // The selected piece is no pawn, or a pawn of the passed pawn's team.
    assert_no_en_passant(board, history.clone(), 3, 2, 4, 7);
    assert_no_en_passant(board, history.clone(), 3, 2, 3, 3);
    assert_no_en_passant(board, history.clone(), 3, 2, 0, 0);
    // The piece behind the square is no pawn of the passed team.
    let mut other = board;
    other[3][3] = create_piece(PieceType::Knight, Team::White);
    assert_no_en_passant(other, history.clone(), 3, 2, 4, 3);
    other[3][3] = create_piece(PieceType::Pawn, Team::Black);
    assert_no_en_passant(other, history.clone(), 3, 2, 4, 3);
}

#[test]
fn material_at_the_start_and_by_kind() {
    assert_eq!(calculate_advantage(&create_board()), (39, 39));
    assert_eq!(calculate_advantage(&empty_board()), (0, 0));
    let kinds = [
        (PieceType::Pawn, 1),
        (PieceType::Knight, 3),
        (PieceType::Bishop, 3),
        (PieceType::Rook, 5),
        (PieceType::Queen, 9),
        (PieceType::King, 0),
        (PieceType::Empty, 0),
    ];
    for (kind, value) in kinds {
        let mut board = empty_board();
        board[2][5] = create_piece(kind, Team::White);
        assert_eq!(calculate_advantage(&board), (value, 0));
        board[2][5] = create_piece(kind, Team::Black);
        assert_eq!(calculate_advantage(&board), (0, value));
        board[2][5] = create_piece(kind, Team::Unassigned);
        assert_eq!(calculate_advantage(&board), (0, 0));
    }
}

#[test]
fn material_of_a_full_board_of_queens() {
    let board = [[create_piece(PieceType::Queen, Team::White); 8]; 8];
    assert_eq!(calculate_advantage(&board), (576, 0));
}
