//! End-to-end tests: PGN text is driven through `pgn_reader`'s buffered
//! reader into the conversion engine, and the finished descriptions are
//! compared with their expected accessible text.

use blindfold_chess::{MoveEvent, PositionConverter, Role};
use pgn_reader::{BufferedReader, CastlingSide, Nag, Outcome, RawComment, RawHeader, San, SanPlus, Skip, Visitor};
use std::io;

struct ConverterVisitor {
    converter: PositionConverter,
    with_side_lines: bool,
}

impl ConverterVisitor {
    fn new() -> ConverterVisitor {
        ConverterVisitor { converter: PositionConverter::new(), with_side_lines: false }
    }

    fn new_with_config(with_side_lines: bool, with_comments: bool) -> ConverterVisitor {
        ConverterVisitor {
            converter: PositionConverter::new_with_config(with_side_lines, with_comments),
            with_side_lines,
        }
    }
}

fn convert_role(role: pgn_reader::Role) -> Role {
    match role {
        pgn_reader::Role::Pawn => Role::Pawn,
        pgn_reader::Role::Knight => Role::Knight,
        pgn_reader::Role::Bishop => Role::Bishop,
        pgn_reader::Role::Rook => Role::Rook,
        pgn_reader::Role::Queen => Role::Queen,
        pgn_reader::Role::King => Role::King,
    }
}

fn convert_san(san: San) -> MoveEvent {
    match san {
        San::Normal { role, file, rank, capture, to, promotion } => MoveEvent::Normal {
            role: convert_role(role),
            file: file.map(|f| f as u8),
            rank: rank.map(|r| r as u8),
            capture,
            to_file: to.file() as u8,
            to_rank: to.rank() as u8,
            promotion: promotion.map(convert_role),
        },
        San::Castle(CastlingSide::KingSide) => MoveEvent::CastleShort,
        San::Castle(CastlingSide::QueenSide) => MoveEvent::CastleLong,
        _ => MoveEvent::Other,
    }
}

impl Visitor for ConverterVisitor {
    type Result = String;

    fn begin_game(&mut self) {
        self.converter.begin_game();
    }

    fn begin_headers(&mut self) {
        self.converter.begin_headers();
    }

    fn header(&mut self, key: &[u8], value: RawHeader) {
        let key_str = match std::str::from_utf8(key) {
            Ok(v) => v,
            Err(e) => panic!("Invalid UTF-8 sequence in header key: {}", e),
        };
        let value_str = value.decode_utf8().unwrap().into_owned();
        self.converter.header(key_str, value_str);
    }

    fn end_headers(&mut self) -> Skip {
        Skip(self.converter.end_headers())
    }

    fn san(&mut self, san_plus: SanPlus) {
        if self.converter.get_ply_count() == usize::MAX {
            panic!("ply count overflow");
        }
        self.converter.san(convert_san(san_plus.san));
    }

    fn nag(&mut self, _nag: Nag) {
        self.converter.nag();
    }

    fn comment(&mut self, comment: RawComment) {
        let text = std::str::from_utf8(comment.as_bytes()).unwrap();
        self.converter.comment(text);
    }

    fn begin_variation(&mut self) -> Skip {
        if self.with_side_lines && self.converter.get_ply_count() < 1 {
            panic!("side line before any move");
        }
        Skip(self.converter.begin_variation())
    }

    fn end_variation(&mut self) {
        if !self.with_side_lines {
            // The reader reports the closing parenthesis of a skipped side
            // line; no line was entered, so there is nothing to close.
            return;
        }
        if self.converter.variation_depth() < 2 {
            panic!("unmatched end of side line");
        }
        self.converter.end_variation();
    }

    fn outcome(&mut self, _outcome: Option<Outcome>) {
        self.converter.outcome();
    }

    fn end_game(&mut self) -> String {
        if self.converter.variation_depth() != 1 {
            panic!("unclosed side line");
        }
        if self.converter.get_exercise_count() == usize::MAX {
            panic!("exercise count overflow");
        }
        match self.converter.end_game() {
            Ok(description) => description,
            Err(e) => panic!("invalid FEN in pgn header: {}", e.fen),
        }
    }
}

#[test]
fn empty_description() -> io::Result<()> {
    let pgn = b"
[White \"player1\"]
[Black \"player2\"]
";
    let mut reader = BufferedReader::new_cursor(&pgn[..]);
    let mut position_converter = ConverterVisitor::new();
    let description = reader.read_game(&mut position_converter)?;

    assert_eq!(description, Some("".to_string()));
    Ok(())
}

#[test]
fn converts_single_exercise() -> io::Result<()> {
    let pgn = b"
[White \"player1\"]
[Black \"player2\"]
[FEN \"rnbqkbnr/pp1ppppp/8/2p5/4P3/8/PPPP1PPP/RNBQKBNR w KQkq c6 0 2\"]
        ";
    let mut reader = BufferedReader::new_cursor(&pgn[..]);
    let mut position_converter = ConverterVisitor::new();
    let description = reader.read_game(&mut position_converter)?.unwrap();
    let result = "Exercise 1:
White to move:
White:
Pawn Ana2
Pawn Bela2
Pawn Caesar2
Pawn David2
Pawn Felix2
Pawn Gustav2
Pawn Hector2
Pawn Eva4
Knight Bela1
Knight Gustav1
Bishop Caesar1
Bishop Felix1
Rook Ana1
Rook Hector1
Queen David1
King Eva1
Black:
Pawn Caesar5
Pawn Ana7
Pawn Bela7
Pawn David7
Pawn Eva7
Pawn Felix7
Pawn Gustav7
Pawn Hector7
Knight Bela8
Knight Gustav8
Bishop Caesar8
Bishop Felix8
Rook Ana8
Rook Hector8
Queen David8
King Eva8
";

    assert_eq!(&description[..], result);
    Ok(())
}

#[test]
fn converts_multiple_exercises() -> io::Result<()> {
    let pgn = b"
[FEN \"7k/8/8/8/8/8/8/6RK w - - 0 1\"]

 1-0

[FEN \"6qk/8/8/8/8/8/8/7K b - - 0 1\"]

 0-1
        ";
    let mut reader = BufferedReader::new_cursor(&pgn[..]);
    let mut position_converter = ConverterVisitor::new();
    let mut description = String::new();
    while let Some(single_exercise) = reader.read_game(&mut position_converter)? {
        description.push_str(&single_exercise);
    }

    let result = "Exercise 1:
White to move:
White:
Rook Gustav1
King Hector1
Black:
King Hector8
Exercise 2:
Black to move:
Black:
Queen Gustav8
King Hector8
White:
King Hector1
";

    assert_eq!(&description[..], result);
    Ok(())
}

#[test]
fn parses_exercise_with_move_solutions() -> io::Result<()> {
    let pgn = b"
[FEN \"7k/8/8/8/8/8/8/6RK w - - 0 1\"]

1. Kh2 Kh7 2. Rg5 Kh8

 1-0
        ";
    let mut reader = BufferedReader::new_cursor(&pgn[..]);
    let mut position_converter = ConverterVisitor::new();
    let description = reader.read_game(&mut position_converter)?.unwrap();

    let result = "Exercise 1:
White to move:
White:
Rook Gustav1
King Hector1
Black:
King Hector8
Solution:
1. King Hector2 King Hector7
2. Rook Gustav5 King Hector8
";

    assert_eq!(&description[..], result);
    Ok(())
}

#[test]
fn parses_exercise_with_odd_number_of_moves() -> io::Result<()> {
    let pgn = b"
[FEN \"7k/8/8/8/8/8/8/6RK w - - 0 1\"]

1. Kh2

 1-0
        ";
    let mut reader = BufferedReader::new_cursor(&pgn[..]);
    let mut position_converter = ConverterVisitor::new();
    let description = reader.read_game(&mut position_converter)?.unwrap();

    let result = "Exercise 1:
White to move:
White:
Rook Gustav1
King Hector1
Black:
King Hector8
Solution:
1. King Hector2
";

    assert_eq!(&description[..], result);
    Ok(())
}

#[test]
fn parses_exercise_with_comments() -> io::Result<()> {
    let pgn = b"
[FEN \"7k/8/8/8/8/8/8/6RK w - - 0 1\"]

1. Kh2 {and so the king moves}

 1-0
        ";
    let mut reader = BufferedReader::new_cursor(&pgn[..]);
    let mut position_converter = ConverterVisitor::new_with_config(false, true);
    let description = reader.read_game(&mut position_converter)?.unwrap();

    let result = "Exercise 1:
White to move:
White:
Rook Gustav1
King Hector1
Black:
King Hector8
Solution:
1. King Hector2 \nand so the king moves
";

    assert_eq!(&description[..], result);
    Ok(())
}

#[test]
fn parses_exercise_with_side_lines() -> io::Result<()> {
    let pgn = b"
[FEN \"7k/8/8/8/8/8/8/6RK w - - 0 1\"]

1. Kh2 (1. Kg2) Kg8 (1... Kh7 2. Kg3)

 1-0
        ";
    let mut reader = BufferedReader::new_cursor(&pgn[..]);
    let mut position_converter = ConverterVisitor::new_with_config(true, false);
    let description = reader.read_game(&mut position_converter)?.unwrap();

    let result = "Exercise 1:
White to move:
White:
Rook Gustav1
King Hector1
Black:
King Hector8
Solution:
1. King Hector2 \n(1. King Gustav2)
King Gustav8
(1... King Hector7
2. King Gustav3)
";

    assert_eq!(&description[..], result);
    Ok(())
}

#[test]
fn comments_disabled_are_discarded() -> io::Result<()> {
    let pgn = b"
[FEN \"7k/8/8/8/8/8/8/6RK w - - 0 1\"]

1. Kh2 {and so the king moves}

 1-0
        ";
    let mut reader = BufferedReader::new_cursor(&pgn[..]);
    let mut position_converter = ConverterVisitor::new();
    let description = reader.read_game(&mut position_converter)?.unwrap();

    assert!(!description.contains("and so the king moves"));
    let result = "Exercise 1:
White to move:
White:
Rook Gustav1
King Hector1
Black:
King Hector8
Solution:
1. King Hector2
";
    assert_eq!(&description[..], result);
    Ok(())
}

#[test]
fn side_lines_disabled_leave_no_parentheses() -> io::Result<()> {
    let pgn = b"
[FEN \"7k/8/8/8/8/8/8/6RK w - - 0 1\"]

1. Kh2 (1. Kg2) Kg8 (1... Kh7 2. Kg3)

 1-0
        ";
    let mut reader = BufferedReader::new_cursor(&pgn[..]);
    let mut position_converter = ConverterVisitor::new();
    let description = reader.read_game(&mut position_converter)?.unwrap();

    assert!(!description.contains('('));
    assert!(!description.contains(')'));
    let result = "Exercise 1:
White to move:
White:
Rook Gustav1
King Hector1
Black:
King Hector8
Solution:
1. King Hector2 King Gustav8
";
    assert_eq!(&description[..], result);
    Ok(())
}

#[test]
fn game_without_fen_yields_raw_transcript() -> io::Result<()> {
    let pgn = b"
[White \"player1\"]

1. e4 e5 2. Nf3

 *
        ";
    let mut reader = BufferedReader::new_cursor(&pgn[..]);
    let mut position_converter = ConverterVisitor::new();
    let description = reader.read_game(&mut position_converter)?.unwrap();

    let result = "1. Eva4 Eva5\n2. Knight Felix3\n";
    assert_eq!(&description[..], result);
    assert!(!description.contains("Exercise"));
    assert!(description.ends_with('\n'));
    assert!(!description.ends_with(" \n"));
    Ok(())
}

#[test]
fn end_game_reports_undecodable_fen() {
    let mut converter = PositionConverter::new();
    converter.begin_game();
    converter.begin_headers();
    converter.header("FEN", "this is not a fen".to_string());
    let result = converter.end_game();
    match result {
        Ok(_) => panic!("an undecodable FEN must be reported"),
        Err(e) => assert_eq!(e.fen, "this is not a fen"),
    }
    // The error is fatal for that game alone: the converter is reset.
    let next = converter.end_game();
    assert_eq!(next.unwrap(), "");
}

#[test]
fn end_game_rejects_fen_without_kings() {
    let mut converter = PositionConverter::new();
    converter.header("FEN", "8/8/8/8/8/8/8/8 w - - 0 1".to_string());
    let result = converter.end_game();
    assert!(result.is_err());
}

#[test]
fn end_game_rejects_fen_with_zero_fullmove_counter() {
    let mut converter = PositionConverter::new();
    converter.header("FEN", "7k/8/8/8/8/8/8/6RK w - - 0 0".to_string());
    let result = converter.end_game();
    assert!(result.is_err());
}

#[test]
fn only_first_fen_header_is_recorded() {
    let mut converter = PositionConverter::new();
    converter.header("FEN", "7k/8/8/8/8/8/8/6RK w - - 0 1".to_string());
    converter.header("FEN", "6qk/8/8/8/8/8/8/7K b - - 0 1".to_string());
    let description = converter.end_game().unwrap();
    assert!(description.starts_with("Exercise 1:\nWhite to move:\n"));
}

#[test]
fn capture_disambiguation_and_promotion_phrase() {
    let mut converter = PositionConverter::new();
    converter.san(MoveEvent::Normal {
        role: Role::Queen,
        file: Some(3),
        rank: Some(4),
        capture: true,
        to_file: 7,
        to_rank: 0,
        promotion: Some(Role::Knight),
    });
    let description = converter.end_game().unwrap();
    assert_eq!(description, "1. Queen David 5 takes Hector1 promotes to Knight\n");
}

#[test]
fn castling_phrases() {
    let mut converter = PositionConverter::new();
    converter.san(MoveEvent::CastleShort);
    converter.san(MoveEvent::CastleLong);
    let description = converter.end_game().unwrap();
    assert_eq!(description, "1. Short Castling Long Castling\n");
}

#[test]
fn unmodeled_move_renders_placeholder() {
    let mut converter = PositionConverter::new();
    converter.san(MoveEvent::Other);
    let description = converter.end_game().unwrap();
    assert_eq!(description, "1. --\n");
}

#[test]
fn multi_digit_numbers_render_in_full() {
    let mut converter = PositionConverter::new();
    for _ in 0..24 {
        converter.san(MoveEvent::Other);
    }
    converter.san(MoveEvent::Normal {
        role: Role::King,
        file: None,
        rank: None,
        capture: false,
        to_file: 0,
        to_rank: 25,
    promotion: None,
    });
    let description = converter.end_game().unwrap();
    assert!(description.ends_with("13. King Ana26\n"));
}

#[test]
fn naming_table_getters() {
    let converter = PositionConverter::new();
    assert_eq!(converter.get_piece_name('q'), "Queen");
    assert_eq!(converter.get_piece_name('x'), "None");
    assert_eq!(converter.get_file_name(0), "Ana");
    assert_eq!(converter.get_file_name(7), "Hector");
    assert_eq!(converter.get_file_name(8), "unknown");
}

#[test]
fn ply_and_move_counters() {
    let mut converter = PositionConverter::new();
    assert_eq!(converter.get_ply_count(), 0);
    assert_eq!(converter.get_move_count(), 1);
    converter.san(MoveEvent::Other);
    assert_eq!(converter.get_ply_count(), 1);
    assert_eq!(converter.get_move_count(), 1);
    converter.san(MoveEvent::Other);
    assert_eq!(converter.get_ply_count(), 2);
    assert_eq!(converter.get_move_count(), 2);
}

#[test]
fn exercise_counter_is_kept_across_games() {
    let mut converter = PositionConverter::new();
    converter.header("FEN", "7k/8/8/8/8/8/8/6RK w - - 0 1".to_string());
    let first = converter.end_game().unwrap();
    assert!(first.starts_with("Exercise 1:\n"));
    assert_eq!(converter.get_exercise_count(), 1);
    converter.header("FEN", "6qk/8/8/8/8/8/8/7K b - - 0 1".to_string());
    let second = converter.end_game().unwrap();
    assert!(second.starts_with("Exercise 2:\n"));
    assert_eq!(converter.get_exercise_count(), 2);
}
