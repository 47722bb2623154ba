//! Converts chess game records into a phonetic, coordinate-free textual
//! description suitable for visually impaired players: pieces and squares are
//! spoken as words, and move sequences are rendered as readable phrases.
//!
//! The core is the stateful conversion engine `PositionConverter`, driven by
//! ordered callback events (one per PGN token). PGN lexical parsing and FEN
//! position decoding are external collaborators; the engine itself only
//! assembles text, and every step of that assembly is specified and verified.

pub mod board;
pub mod engine;
pub mod fen;
pub mod laws;
pub mod movetext;
pub mod naming;
pub mod text;

pub use board::{board_text, color_block, exercise_text, piece_lines, square_text};
pub use engine::{comment_text, finalized_transcript, FenError, PositionConverter, SessionView};
pub use fen::{fen_parses, fen_position, fen_safe};
pub use laws::{run, step, Event};
pub use movetext::{move_phrase, san_text, variation_open_text, MoveEvent, Role};
pub use naming::{spec_file_name, spec_piece_name};
pub use text::dec_of;
