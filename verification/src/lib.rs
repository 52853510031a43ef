//! A two-player chess rules engine: board state, move generation, detection of
//! check and stalemate, and the special moves castling and en passant.

pub mod board;
pub mod game;
pub mod material;
pub mod moves;
pub mod pieces;
pub mod safety;
pub mod special;

pub use board::{check_in_board, create_board, empty_board, Board};
pub use pieces::{create_piece, switch_teams, Direction, Piece, PieceType, Team};
pub use moves::{attack_list, move_list, pseudo_legal_moves};
pub use safety::{
    filter_safe, final_move_list, is_in_check, is_stalemate, legal_moves, move_leaves_in_check,
};
pub use material::calculate_advantage;
pub use special::{apply_move, castle, en_passant};
pub use game::{game_result, Chess, GameResult};
