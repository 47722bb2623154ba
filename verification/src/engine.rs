//! The conversion engine: a visitor-style state machine that receives the
//! ordered PGN events of one game after another and assembles the phonetic
//! description of each.

use crate::board::{exercise_text, push_board_text};
use crate::fen::{decode_fen, fen_guard, fen_parses, fen_position, fen_safe};
use crate::movetext::{push_move_phrase, san_text, variation_open_text, MoveEvent};
use crate::text::push_dec;
use vstd::prelude::*;

verus! {

/// The abstract state of a conversion session: the recorded starting
/// position (if any), the move transcript so far, the stack of ply counts
/// (top = current line), the exercise counter, and the two configuration
/// flags.
#[verifier::ext_equal]
pub ghost struct SessionView {
    pub fen: Option<Seq<char>>,
    pub moves: Seq<char>,
    pub stack: Seq<usize>,
    pub exercises: nat,
    pub side_lines: bool,
    pub comments: bool,
}

impl SessionView {
    /// The ply count of the line currently being transcribed.
    pub open spec fn top(self) -> usize {
        self.stack.last()
    }

    /// Session well-formedness: the ply-count stack is never empty; the move
    /// buffer is non-empty whenever the current ply count is odd (a dangling
    /// separator is pending) or a side line is open; and on the main line an
    /// even ply count means the buffer ends in a newline.
    pub open spec fn wf(self) -> bool {
        &&& self.stack.len() >= 1
        &&& self.top() % 2 == 1 ==> self.moves.len() >= 1
        &&& self.stack.len() >= 2 ==> self.moves.len() >= 1
        &&& (self.stack.len() == 1 && self.top() % 2 == 0 && self.moves.len() >= 1)
            ==> self.moves.last() == '\n'
    }
}

/// The text a comment event appends when comments are included: the comment
/// verbatim, wrapped in newlines.
pub open spec fn comment_text(text: Seq<char>) -> Seq<char> {
    "\n"@ + text + "\n"@
}

/// The move transcript as finalized at the end of a game: when the final ply
/// count is odd, the dangling trailing separator is rewritten into a newline,
/// so a non-empty transcript always ends with one.
pub open spec fn finalized_transcript(v: SessionView) -> Seq<char> {
    if v.top() % 2 == 1 {
        v.moves.take(v.moves.len() - 1) + "\n"@
    } else {
        v.moves
    }
}

/// Error returned when a declared starting position cannot be decoded; it
/// carries the offending FEN text.
#[derive(Debug)]
pub struct FenError {
    pub fen: String,
}

/// The stateful conversion engine. One instance converts an arbitrary number
/// of games in sequence: per-game state is reset by `end_game`, while the
/// exercise counter is kept for the whole run.
pub struct PositionConverter {
    /// The FEN of the position coming from the PGN header, once seen.
    starting_fen: Option<String>,
    /// The PGN moves converted so far, in the accessible phrasing.
    moves: String,
    /// Number of the exercise within the run, counting converted positions.
    exercise_number: usize,
    /// The ply counts of the nested lines of the game being parsed; the top
    /// is the count of the line currently being transcribed.
    ply_counts: Vec<usize>,
    /// Whether to include side lines.
    with_side_lines: bool,
    /// Whether to include PGN comments in the converted positions.
    with_comments: bool,
}

impl View for PositionConverter {
    type V = SessionView;

    closed spec fn view(&self) -> SessionView {
        SessionView {
            fen: match self.starting_fen {
                Some(f) => Some(f@),
                None => None,
            },
            moves: self.moves@,
            stack: self.ply_counts@,
            exercises: self.exercise_number as nat,
            side_lines: self.with_side_lines,
            comments: self.with_comments,
        }
    }
}

impl PositionConverter {
    /// Session well-formedness; established by the constructors and preserved
    /// by every event method.
    pub open spec fn wf(&self) -> bool {
        self@.wf()
    }

    /// A fresh converter: no starting position, empty buffers, a single zero
    /// ply count, both options off.
    pub fn new() -> (pc: PositionConverter)
        ensures
            pc.wf(),
            pc@.fen is None,
            pc@.moves == Seq::<char>::empty(),
            pc@.stack == seq![0usize],
            pc@.exercises == 0,
            !pc@.side_lines,
            !pc@.comments,
    {
        let mut ply_counts: Vec<usize> = Vec::new();
        ply_counts.push(0);
        proof {
            assert(ply_counts@ =~= seq![0usize]);
        }
        PositionConverter {
            starting_fen: None,
            moves: String::new(),
            exercise_number: 0,
            ply_counts,
            with_side_lines: false,
            with_comments: false,
        }
    }

    /// A fresh converter with the two inclusion options chosen.
    pub fn new_with_config(with_side_lines: bool, with_comments: bool) -> (pc: PositionConverter)
        ensures
            pc.wf(),
            pc@.fen is None,
            pc@.moves == Seq::<char>::empty(),
            pc@.stack == seq![0usize],
            pc@.exercises == 0,
            pc@.side_lines == with_side_lines,
            pc@.comments == with_comments,
    {
        let mut pc = PositionConverter::new();
        pc.with_side_lines = with_side_lines;
        pc.with_comments = with_comments;
        pc
    }

    /// The ply count of the current line.
    pub fn get_ply_count(&self) -> (count: usize)
        requires
            self@.stack.len() >= 1,
        ensures
            count == self@.top(),
    {
        let i = self.ply_counts.len() - 1;
        let ply_count = self.ply_counts[i];
        ply_count
    }

    /// The current move number: each two plies are one move in chess.
    pub fn get_move_count(&self) -> (count: usize)
        requires
            self@.stack.len() >= 1,
        ensures
            count == self@.top() / 2 + 1,
    {
        let move_count: usize = self.get_ply_count() / 2 + 1;
        move_count
    }

    /// How many lines are open: 1 on the main line, more inside side lines.
    pub fn variation_depth(&self) -> (depth: usize)
        ensures
            depth == self@.stack.len(),
    {
        self.ply_counts.len()
    }

    /// How many exercises have been converted so far in this run.
    pub fn get_exercise_count(&self) -> (count: usize)
        ensures
            count == self@.exercises,
    {
        self.exercise_number
    }

    /// Called at the start of the game; nothing to do.
    pub fn begin_game(&mut self)
        ensures
            final(self)@ == old(self)@,
    {
    }

    /// Called directly before reading game headers; nothing to do.
    pub fn begin_headers(&mut self)
        ensures
            final(self)@ == old(self)@,
    {
    }

    /// Records the first `FEN` header seen in the game; later occurrences and
    /// other headers are ignored.
    pub fn header(&mut self, key: &str, value: String)
        requires
            old(self).wf(),
        ensures
            final(self).wf(),
            final(self)@.fen == (if old(self)@.fen is None && key@ == "FEN"@ {
                Some(value@)
            } else {
                old(self)@.fen
            }),
            final(self)@.moves == old(self)@.moves,
            final(self)@.stack == old(self)@.stack,
            final(self)@.exercises == old(self)@.exercises,
            final(self)@.side_lines == old(self)@.side_lines,
            final(self)@.comments == old(self)@.comments,
    {
        if self.starting_fen.is_none() && is_fen_key(key) {
            self.starting_fen = Some(value);
        }
    }

    /// Called after the headers; the mainline move text is never skipped.
    pub fn end_headers(&mut self) -> (skip: bool)
        ensures
            final(self)@ == old(self)@,
            !skip,
    {
        false
    }

    /// Transcribes one move: bumps the current ply count, writes the
    /// move-number marker before the first ply of each full move, then the
    /// move phrase, then a newline after an even ply (two moves per line) or
    /// a space after an odd one.
    pub fn san(&mut self, m: MoveEvent)
        requires
            old(self).wf(),
            old(self)@.top() < usize::MAX,
        ensures
            final(self).wf(),
            final(self)@.stack == old(self)@.stack.update(
                old(self)@.stack.len() - 1,
                (old(self)@.top() + 1) as usize,
            ),
            final(self)@.moves == old(self)@.moves + san_text((old(self)@.top() + 1) as nat, m),
            final(self)@.fen == old(self)@.fen,
            final(self)@.exercises == old(self)@.exercises,
            final(self)@.side_lines == old(self)@.side_lines,
            final(self)@.comments == old(self)@.comments,
    {
        let i = self.ply_counts.len() - 1;
        let new_count = self.ply_counts[i] + 1;
        let _ = self.ply_counts.pop();
        self.ply_counts.push(new_count);
        proof {
            assert(self.ply_counts@ =~= old(self)@.stack.update(
                old(self)@.stack.len() - 1,
                new_count,
            ));
            reveal_strlit("\n");
            reveal_strlit(" ");
            reveal_strlit(". ");
        }
        let ghost base = self.moves@;
        // Writes the move number every two plies, e.g. 1. e4 e5 2. Nf3 Nc6.
        if new_count % 2 == 1 {
            push_dec(&mut self.moves, new_count / 2 + 1);
            self.moves.append(". ");
        }
        push_move_phrase(&mut self.moves, m);
        // Keep two moves per line.
        if new_count % 2 == 0 {
            self.moves.append("\n");
        } else {
            self.moves.append(" ");
        }
        proof {
            assert(self.moves@ =~= base + san_text(new_count as nat, m));
        }
    }

    /// Called for each numeric annotation glyph; nothing to do.
    pub fn nag(&mut self)
        ensures
            final(self)@ == old(self)@,
    {
    }

    /// Appends the comment verbatim, wrapped in newlines, when comments are
    /// included; discards it otherwise.
    pub fn comment(&mut self, text: &str)
        requires
            old(self).wf(),
        ensures
            final(self).wf(),
            final(self)@.moves == old(self)@.moves + (if old(self)@.comments {
                comment_text(text@)
            } else {
                Seq::<char>::empty()
            }),
            final(self)@.stack == old(self)@.stack,
            final(self)@.fen == old(self)@.fen,
            final(self)@.exercises == old(self)@.exercises,
            final(self)@.side_lines == old(self)@.side_lines,
            final(self)@.comments == old(self)@.comments,
    {
        proof {
            reveal_strlit("\n");
        }
        if self.with_comments {
            self.moves.append("\n");
            self.moves.append(text);
            self.moves.append("\n");
            proof {
                assert(self.moves@ =~= old(self)@.moves + comment_text(text@));
            }
        } else {
            proof {
                assert(self.moves@ =~= old(self)@.moves + Seq::<char>::empty());
            }
        }
    }

    /// Opens a side line. With side lines excluded, reports that the whole
    /// sub-tree should be skipped and changes nothing. Otherwise pushes the
    /// current ply count less one (a side line in PGN undoes the last move
    /// and then starts) and writes the opening parenthesis, with a
    /// continuation marker of the form `1...` when the side line starts on
    /// an odd ply.
    pub fn begin_variation(&mut self) -> (skip: bool)
        requires
            old(self).wf(),
            old(self)@.side_lines ==> old(self)@.top() >= 1,
        ensures
            final(self).wf(),
            skip == !old(self)@.side_lines,
            !old(self)@.side_lines ==> final(self)@ == old(self)@,
            old(self)@.side_lines ==> {
                &&& final(self)@.stack == old(self)@.stack.push((old(self)@.top() - 1) as usize)
                &&& final(self)@.moves == old(self)@.moves + variation_open_text(
                    (old(self)@.top() - 1) as nat,
                )
                &&& final(self)@.fen == old(self)@.fen
                &&& final(self)@.exercises == old(self)@.exercises
                &&& final(self)@.side_lines == old(self)@.side_lines
                &&& final(self)@.comments == old(self)@.comments
            },
    {
        if !self.with_side_lines {
            return true;  // stay in the mainline
        }
        let i = self.ply_counts.len() - 1;
        // The ply count starts one lower: a side line replays the last move.
        let new_count = self.ply_counts[i] - 1;
        self.ply_counts.push(new_count);
        let ghost base = self.moves@;
        proof {
            reveal_strlit("(");
            reveal_strlit("... ");
            reveal_strlit("\n(");
        }
        // Write the move count here to support things of the form
        // 1. e4 e5 (1... d5).
        if new_count % 2 == 1 {
            self.moves.append("(");
            push_dec(&mut self.moves, new_count / 2 + 1);
            self.moves.append("... ");
        } else {
            self.moves.append("\n(");
        }
        proof {
            assert(self.moves@ =~= base + variation_open_text(new_count as nat));
        }
        false
    }

    /// Closes the innermost side line: drops its ply count, rewrites the
    /// pending separator (the trailing space or newline the last move left)
    /// into the closing parenthesis, and ends the line — so the closing
    /// parenthesis never dangles after a space.
    pub fn end_variation(&mut self)
        requires
            old(self).wf(),
            old(self)@.stack.len() >= 2,
        ensures
            final(self).wf(),
            final(self)@.stack == old(self)@.stack.drop_last(),
            final(self)@.moves == old(self)@.moves.take(old(self)@.moves.len() - 1) + ")\n"@,
            final(self)@.fen == old(self)@.fen,
            final(self)@.exercises == old(self)@.exercises,
            final(self)@.side_lines == old(self)@.side_lines,
            final(self)@.comments == old(self)@.comments,
    {
        proof {
            reveal_strlit(")\n");
        }
        let n = self.moves.unicode_len();
        let trimmed = String::from_str(self.moves.as_str().substring_char(0, n - 1));
        self.moves = trimmed;
        self.moves.append(")\n");
        let _ = self.ply_counts.pop();
        proof {
            assert(self.ply_counts@ =~= old(self)@.stack.drop_last());
        }
    }

    /// Called for each game termination marker; nothing to do.
    pub fn outcome(&mut self)
        ensures
            final(self)@ == old(self)@,
    {
    }

    /// Builds the description of one exercise: the numbered heading, the
    /// board description for the decoded starting position, and the solution
    /// block when moves were transcribed.
    fn describe_board(
        &self,
        number: usize,
        white_to_move: bool,
        placement: &Vec<(u8, char)>,
    ) -> (description: String)
        ensures
            description@ == exercise_text(number as nat, white_to_move, placement@, self@.moves),
    {
        let mut description = String::new();
        description.append("Exercise ");
        push_dec(&mut description, number);
        description.append(":\n");
        push_board_text(&mut description, white_to_move, placement);
        if !self.moves.as_str().is_empty() {
            description.append("Solution:\n");
            description.append(self.moves.as_str());
        }
        proof {
            assert(description@ =~= exercise_text(
                number as nat,
                white_to_move,
                placement@,
                self@.moves,
            ));
        }
        description
    }

    /// Finalizes one game and resets the per-game state, keeping the
    /// exercise counter and the configuration for the rest of the run.
    ///
    /// A transcript whose final ply count is odd has its dangling trailing
    /// separator rewritten into a newline. Then: a game with a recorded
    /// starting position becomes a numbered exercise block (and the exercise
    /// counter advances), a game with moves alone yields the raw transcript,
    /// and a game with neither yields the empty string. A starting position
    /// the decoder does not accept is reported as an error carrying the
    /// offending FEN.
    pub fn end_game(&mut self) -> (game_result: Result<String, FenError>)
        requires
            old(self).wf(),
            old(self)@.stack.len() == 1,
            old(self)@.exercises < usize::MAX,
        ensures
            final(self).wf(),
            final(self)@.fen is None,
            final(self)@.moves == Seq::<char>::empty(),
            final(self)@.stack == seq![0usize],
            final(self)@.side_lines == old(self)@.side_lines,
            final(self)@.comments == old(self)@.comments,
            old(self)@.fen is None ==> {
                &&& game_result matches Ok(text) && text@ == finalized_transcript(old(self)@)
                &&& final(self)@.exercises == old(self)@.exercises
            },
            old(self)@.fen matches Some(f) ==> {
                &&& (fen_safe(f) && fen_parses(f)) ==> {
                    &&& game_result matches Ok(text) && text@ == exercise_text(
                        old(self)@.exercises + 1,
                        fen_position(f).0,
                        fen_position(f).1,
                        finalized_transcript(old(self)@),
                    )
                    &&& final(self)@.exercises == old(self)@.exercises + 1
                }
                &&& !(fen_safe(f) && fen_parses(f)) ==> {
                    &&& game_result matches Err(e) && e.fen@ == f
                    &&& final(self)@.exercises == old(self)@.exercises
                }
            },
    {
        proof {
            reveal_strlit("\n");
        }
        // An odd final ply left a dangling trailing space: rewrite it into a
        // newline, so the transcript always ends with exactly one.
        let i = self.ply_counts.len() - 1;
        if self.ply_counts[i] % 2 == 1 {
            let n = self.moves.unicode_len();
            let trimmed = String::from_str(self.moves.as_str().substring_char(0, n - 1));
            self.moves = trimmed;
            self.moves.append("\n");
        }
        proof {
            assert(self.moves@ =~= finalized_transcript(old(self)@));
        }
        let game_result: Result<String, FenError>;
        let mut new_exercises = self.exercise_number;
        match &self.starting_fen {
            None => {
                // No exercise; a regular game yields its transcript, and a
                // game without moves the empty string.
                game_result = Ok(self.moves.clone());
            },
            Some(fen) => {
                if fen_guard(fen.as_str()) {
                    match decode_fen(fen.as_str()) {
                        Some(position) => {
                            let description = self.describe_board(
                                self.exercise_number + 1,
                                position.0,
                                &position.1,
                            );
                            new_exercises = self.exercise_number + 1;
                            game_result = Ok(description);
                        },
                        None => {
                            game_result = Err(FenError { fen: fen.clone() });
                        },
                    }
                } else {
                    game_result = Err(FenError { fen: fen.clone() });
                }
            },
        }
        self.exercise_number = new_exercises;
        // Clear the per-game state for the next game of the run.
        self.starting_fen = None;
        self.moves = String::new();
        let mut ply_counts: Vec<usize> = Vec::new();
        ply_counts.push(0);
        self.ply_counts = ply_counts;
        proof {
            assert(self.ply_counts@ =~= seq![0usize]);
        }
        game_result
    }
}

/// Whether `key` is exactly the header key `FEN`.
fn is_fen_key(key: &str) -> (is_fen: bool)
    ensures
        is_fen == (key@ == "FEN"@),
{
    proof {
        reveal_strlit("FEN");
    }
    let n = key.unicode_len();
    if n != 3 {
        return false;
    }
    let matches_fen = key.get_char(0) == 'F' && key.get_char(1) == 'E' && key.get_char(2) == 'N';
    proof {
        if matches_fen {
            assert(key@ =~= "FEN"@);
        }
    }
    matches_fen
}

} // verus!
