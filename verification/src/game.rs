//! A game in progress: the board, its history, the side to move, the
//! selected piece, and what a click on a square does to them.

use vstd::prelude::*;
use crate::board::{create_board, is_initial_board, on_board, Board};
use crate::material::{calculate_advantage, material};
use crate::moves::squares_of;
use crate::pieces::{switch_teams, PieceType, Team};
use crate::safety::{
    in_check,
    is_in_check,
    is_stalemate,
    legal_moves,
    legal_squares,
    no_legal_move,
};
use crate::special::{
    apply_move,
    castle,
    castle_permitted,
    castled_board,
    en_passant,
    en_passant_board,
    en_passant_permitted,
    moved_board,
    pushed,
};

verus! {

/// How a game stands for the side to move.
#[derive(Copy, Clone, PartialEq, Eq, Structural, Debug)]
pub enum GameResult {
    WhiteWins,
    BlackWins,
    Stalemate,
    InProgress,
}

/// How the game stands when `team` is to move on `board`: in progress while
/// `team` has a legal move (or is no playing side); a stalemate where it has
/// none and is not in check; and won by the other side where it has none and
/// is in check.
pub open spec fn result_for(team: Team, board: Board) -> GameResult {
    if !team.is_side() || !no_legal_move(team, board) {
        GameResult::InProgress
    } else if !in_check(team, board) {
        GameResult::Stalemate
    } else if team == Team::White {
        GameResult::BlackWins
    } else {
        GameResult::WhiteWins
    }
}

/// How the game stands when `team` is to move on `board`.
pub fn game_result(team: Team, board: &Board) -> (result: GameResult)
    ensures
        result == result_for(team, *board),
{
    match team {
        Team::Unassigned => GameResult::InProgress,
        _ => {
            if !is_stalemate(team, board) {
                GameResult::InProgress
            } else if !is_in_check(team, board) {
                GameResult::Stalemate
            } else if team == Team::White {
                GameResult::BlackWins
            } else {
                GameResult::WhiteWins
            }
        },
    }
}

/// A game in progress.
pub struct Chess {
    /// The board.
    pub board: Board,
    /// The boards before each move that was made, the latest first.
    pub history: Vec<Board>,
    /// The squares to which the selected piece may move.
    pub valid_moves: Vec<[isize; 2]>,
    /// Whether the selected piece is a king that may still castle.
    pub can_castle: bool,
    /// Whether the selected piece is a pawn that has moved and stands on
    /// rank 3.
    pub can_en_passant: bool,
    /// The side to move.
    pub current_team: Team,
    /// Whether a piece is selected.
    pub piece_selected: bool,
    /// The square of the selected piece.
    pub selected_piece: [isize; 2],
    /// The material of White and of Black after the latest move.
    pub advantage: (i32, i32),
    /// Whether a promotion is being chosen. Promotion is not played, and the
    /// flag stays unset.
    pub selecting_promotion: bool,
}

/// A game as contracts see it.
pub struct Session {
    pub board: Board,
    pub history: Seq<Board>,
    pub targets: Seq<(int, int)>,
    pub can_castle: bool,
    pub can_en_passant: bool,
    pub current_team: Team,
    pub piece_selected: bool,
    pub selected: (int, int),
    pub advantage: (int, int),
    pub selecting_promotion: bool,
}

impl View for Chess {
    type V = Session;

    open spec fn view(&self) -> Session {
        Session {
            board: self.board,
            history: self.history@,
            targets: squares_of(self.valid_moves@),
            can_castle: self.can_castle,
            can_en_passant: self.can_en_passant,
            current_team: self.current_team,
            piece_selected: self.piece_selected,
            selected: (self.selected_piece[0] as int, self.selected_piece[1] as int),
            advantage: (self.advantage.0 as int, self.advantage.1 as int),
            selecting_promotion: self.selecting_promotion,
        }
    }
}

impl Session {
    /// Whether the list of targets is that of the selection: where a piece is
    /// selected, it stands on a square of the board and the targets are its
    /// legal moves.
    pub open spec fn coherent(self) -> bool {
        self.piece_selected ==> on_board(self.selected.0, self.selected.1) && self.targets
            == legal_squares(self.board, self.selected.0, self.selected.1)
    }

    /// Whether a click on (x, y) selects the piece there: no piece is
    /// selected, and the square holds the side to move.
    pub open spec fn selects(self, x: int, y: int) -> bool {
        !self.piece_selected && on_board(x, y) && self.board[x][y].team == self.current_team
    }

    /// The game after the piece on (x, y) has been selected: its legal moves
    /// are the targets, castling is allowed for a king that has not moved,
    /// and the en passant flag is set for a pawn that has moved and stands on
    /// rank 3.
    pub open spec fn select(self, x: int, y: int) -> Session {
        Session {
            targets: legal_squares(self.board, x, y),
            can_castle: self.board[x][y].piece_type == PieceType::King && !self.board[x][y].moved,
            can_en_passant: self.board[x][y].piece_type == PieceType::Pawn
                && self.board[x][y].moved && y == 3,
            piece_selected: true,
            selected: (x, y),
            ..self
        }
    }

    /// Whether a click on (x, y) plays the selected piece there: a piece is
    /// selected on a square of the board and (x, y) is one of the targets.
    pub open spec fn plays(self, x: int, y: int) -> bool {
        self.piece_selected && on_board(x, y) && on_board(self.selected.0, self.selected.1)
            && self.targets.contains((x, y))
    }

    /// Whether a click on (x, y) castles: a piece is selected, (x, y) is no
    /// target to play, and castling is permitted.
    pub open spec fn castles(self, x: int, y: int) -> bool {
        self.piece_selected && !self.plays(x, y) && castle_permitted(
            self.can_castle,
            x,
            y,
            self.board,
            self.selected.0,
            self.selected.1,
            self.current_team,
        )
    }

    /// Whether a click on (x, y) captures en passant: a piece is selected,
    /// (x, y) is no target to play, castling is not permitted, and the
    /// capture is.
    pub open spec fn captures(self, x: int, y: int) -> bool {
        self.piece_selected && !self.plays(x, y) && !self.castles(x, y) && en_passant_permitted(
            x,
            y,
            self.board,
            self.selected.0,
            self.selected.1,
            self.history,
        )
    }

    /// Whether a click on (x, y) makes a move.
    pub open spec fn moves(self, x: int, y: int) -> bool {
        self.plays(x, y) || self.castles(x, y) || self.captures(x, y)
    }

    /// The board after a click on (x, y).
    pub open spec fn board_clicked(self, x: int, y: int) -> Board {
        if self.plays(x, y) {
            moved_board(self.board, self.selected.0, self.selected.1, x, y)
        } else if self.castles(x, y) {
            castled_board(self.board, x, y)
        } else if self.captures(x, y) {
            en_passant_board(self.board, x, y, self.selected.0, self.selected.1)
        } else {
            self.board
        }
    }

    /// The game after a click on (x, y) that ends a selection. The click
    /// plays the selected piece to (x, y) if that is a target, else castles,
    /// else captures en passant, where that is permitted. A move puts the
    /// board as it was in front of the history, hands the turn to the other
    /// side and counts the material again.
    pub open spec fn released(self, x: int, y: int) -> Session {
        if self.moves(x, y) {
            Session {
                board: self.board_clicked(x, y),
                history: pushed(self.history, self.board),
                current_team: self.current_team.next(),
                piece_selected: false,
                advantage: (
                    material(self.board_clicked(x, y), Team::White),
                    material(self.board_clicked(x, y), Team::Black),
                ),
                ..self
            }
        } else {
            Session { piece_selected: false, ..self }
        }
    }

    /// The game after a click on (x, y). Where no side is to move, the click
    /// only gives the move to White. Where no piece is selected, it selects
    /// the piece on (x, y) if that belongs to the side to move, and else
    /// changes nothing. Where a piece is selected, it ends the selection,
    /// with a move where one is permitted.
    pub open spec fn clicked(self, x: int, y: int) -> Session {
        if self.current_team == Team::Unassigned {
            Session { current_team: Team::White, ..self }
        } else if self.piece_selected {
            self.released(x, y)
        } else if self.selects(x, y) {
            self.select(x, y)
        } else {
            self
        }
    }

    /// How the game stands after a click on (x, y): where the click made a
    /// move, as the new board has it for the side that moves next; else in
    /// progress.
    pub open spec fn outcome(self, x: int, y: int) -> GameResult {
        if self.current_team != Team::Unassigned && self.moves(x, y) {
            result_for(self.current_team.next(), self.board_clicked(x, y))
        } else {
            GameResult::InProgress
        }
    }
}

impl Default for Chess {
    /// A new game: the starting position, White to move, nothing selected.
    fn default() -> (game: Self)
        ensures
            is_initial_board(game@.board),
            game@.history == Seq::<Board>::empty(),
            game@.targets == Seq::<(int, int)>::empty(),
            game@.can_castle,
            game@.can_en_passant,
            game@.current_team == Team::White,
            !game@.piece_selected,
            game@.selected == (0int, 0int),
            game@.advantage == (0int, 0int),
            !game@.selecting_promotion,
    {
        let game = Self {
            board: create_board(),
            history: Vec::new(),
            valid_moves: Vec::new(),
            can_castle: true,
            can_en_passant: true,
            current_team: Team::White,
            piece_selected: false,
            selected_piece: [0, 0],
            advantage: (0, 0),
            selecting_promotion: false,
        };
        proof {
            assert(game@.targets =~= Seq::<(int, int)>::empty());
        }
        game
    }
}

/// Whether the list names the square (x, y).
fn contains_square(list: &Vec<[isize; 2]>, x: isize, y: isize) -> (found: bool)
    ensures
        found == squares_of(list@).contains((x as int, y as int)),
{
    let mut i: usize = 0;
    while i < list.len()
        invariant
            i <= list@.len(),
            forall|k: int| 0 <= k < i ==> squares_of(list@)[k] != (x as int, y as int),
        decreases list@.len() - i,
    {
        if list[i][0] == x && list[i][1] == y {
            assert(squares_of(list@)[i as int] == (x as int, y as int));
            return true;
        }
        i = i + 1;
    }
    false
}

impl Chess {
    /// Selects the piece on (x, y) where it belongs to the side to move.
    fn select_square(&mut self, x: isize, y: isize)
        requires
            !old(self).piece_selected,
        ensures
            final(self)@ == (if old(self)@.selects(x as int, y as int) {
                old(self)@.select(x as int, y as int)
            } else {
                old(self)@
            }),
    {
        if 0 <= x && x <= 7 && 0 <= y && y <= 7 {
            let piece = self.board[x as usize][y as usize];
            if piece.team == self.current_team {
                self.selected_piece = [x, y];
                self.piece_selected = true;
                self.valid_moves = legal_moves(&self.board, [x, y]);
                self.can_castle = piece.piece_type == PieceType::King && piece.moved == false;
                self.can_en_passant = piece.piece_type == PieceType::Pawn && piece.moved == true
                    && y == 3;
            }
        }
    }

    /// Makes the move that a click on (x, y) asks of the selected piece, if
    /// there is one, and says whether a move was made.
    fn move_selected(&mut self, x: isize, y: isize) -> (made: bool)
        requires
            old(self).piece_selected,
        ensures
            made == old(self)@.moves(x as int, y as int),
            final(self).board == old(self)@.board_clicked(x as int, y as int),
            final(self).history@ == (if made {
                pushed(old(self).history@, old(self).board)
            } else {
                old(self).history@
            }),
            final(self).current_team == (if made {
                old(self).current_team.next()
            } else {
                old(self).current_team
            }),
            final(self).valid_moves == old(self).valid_moves,
            final(self).can_castle == old(self).can_castle,
            final(self).can_en_passant == old(self).can_en_passant,
            final(self).piece_selected == old(self).piece_selected,
            final(self).selected_piece == old(self).selected_piece,
            final(self).advantage == old(self).advantage,
            final(self).selecting_promotion == old(self).selecting_promotion,
    {
        let sx = self.selected_piece[0];
        let sy = self.selected_piece[1];
        if !(0 <= x && x <= 7 && 0 <= y && y <= 7 && 0 <= sx && sx <= 7 && 0 <= sy && sy <= 7) {
            return false;
        }
        if contains_square(&self.valid_moves, x, y) {
            let applied = apply_move(&mut self.board, [sx, sy], [x, y], &mut self.history);
            switch_teams(&mut self.current_team);
            applied
        } else if castle(
            self.can_castle,
            x as i32,
            y as i32,
            &mut self.board,
            sx as i32,
            sy as i32,
            &mut self.current_team,
            &mut self.history,
        ) {
            true
        } else {
            en_passant(
                x as i32,
                y as i32,
                &mut self.board,
                sx as i32,
                sy as i32,
                &mut self.current_team,
                &mut self.history,
            )
        }
    }

    /// Handles a click on the square (x, y), and says how the game stands
    /// afterwards. A game in which a side is to move is coherent after the
    /// click: where a piece is selected then, the targets are its legal
    /// moves.
    pub fn click(&mut self, x: isize, y: isize) -> (result: GameResult)
        ensures
            final(self)@ == old(self)@.clicked(x as int, y as int),
            result == old(self)@.outcome(x as int, y as int),
            old(self)@.current_team.is_side() ==> final(self)@.coherent(),
    {
        if self.current_team == Team::Unassigned {
            self.current_team = Team::White;
            return GameResult::InProgress;
        }
        if self.piece_selected == false {
            self.select_square(x, y);
            return GameResult::InProgress;
        }
        let made = self.move_selected(x, y);
        self.piece_selected = false;
        if !made {
            return GameResult::InProgress;
        }
        self.advantage = calculate_advantage(&self.board);
        game_result(self.current_team, &self.board)
    }
}

} // verus!
