pub mod board_model;
pub mod board_state;
pub mod chess_move;
pub mod color;
pub mod engine;
pub mod evaluation;
pub mod move_gen;
pub mod move_parser;
pub mod piece;
pub mod square;
