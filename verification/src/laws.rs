//! Session-level properties of the conversion, stated and proved once for
//! all inputs.
//!
//! The per-event contracts live on the engine's methods; this module states
//! what follows from them across whole games: where move-number markers
//! appear, how transcripts end, and what a run of events can and cannot put
//! into the transcript. The event model [`step`] mirrors, arm by arm, the
//! `ensures` of the corresponding engine method.

use crate::board::{color_block_upto, exercise_text, letters_of, piece_lines};
use crate::engine::{comment_text, finalized_transcript, SessionView};
use crate::fen::{count_eq, fen_parses, fen_safe};
use crate::movetext::{
    marker, move_phrase, phrase_capture_part, phrase_dest_part, phrase_file_part,
    phrase_promotion_part, phrase_rank_part, phrase_role_part, role_letter, san_text,
    variation_open_text, MoveEvent, Role,
};
use crate::naming::{spec_file_name, spec_lower_piece, spec_piece_name};
use crate::text::{dec_of, is_digit, lemma_dec_of_digits};
use vstd::prelude::*;

verus! {

// ------------------------------------------------------------------
// Move-number markers (ensures of `san`, restated per parity)
// ------------------------------------------------------------------
/// Law: for the new ply count `ply`, the move-number marker
/// `"<ply/2 + 1>. "` is emitted exactly when `ply` is odd: an odd ply's text
/// is the marker, then the move phrase, then the pending space, while an
/// even ply's text is the bare move phrase and its newline.
pub proof fn lemma_move_number_marker_iff_odd(ply: nat, m: MoveEvent)
    ensures
        ply % 2 == 1 ==> san_text(ply, m) == marker(ply) + (move_phrase(m) + " "@),
        ply % 2 == 0 ==> san_text(ply, m) == move_phrase(m) + "\n"@,
{
    if ply % 2 == 1 {
        assert(san_text(ply, m) =~= marker(ply) + (move_phrase(m) + " "@));
    } else {
        assert(san_text(ply, m) =~= move_phrase(m) + "\n"@);
    }
}

// ------------------------------------------------------------------
// Trailing newlines
// ------------------------------------------------------------------
/// Law: every non-empty move transcript, as finalized at the end of a game,
/// ends with a trailing newline and never with a trailing bare space.
pub proof fn lemma_transcript_ends_in_newline(v: SessionView)
    requires
        v.wf(),
        v.stack.len() == 1,
        v.moves.len() > 0,
    ensures
        finalized_transcript(v).len() > 0,
        finalized_transcript(v).last() == '\n',
        finalized_transcript(v).last() != ' ',
{
    reveal_strlit("\n");
}

// ------------------------------------------------------------------
// Parentheses
// ------------------------------------------------------------------
/// Whether `s` contains no parenthesis of either kind.
pub open spec fn paren_free(s: Seq<char>) -> bool {
    forall|i: int| 0 <= i < s.len() ==> (#[trigger] s[i] != '(' && s[i] != ')')
}

pub broadcast proof fn lemma_paren_free_concat(a: Seq<char>, b: Seq<char>)
    requires
        paren_free(a),
        paren_free(b),
    ensures
        #[trigger] paren_free(a + b),
{
    assert forall|i: int| 0 <= i < (a + b).len() implies (#[trigger] (a + b)[i] != '(' && (a
        + b)[i] != ')') by {
        if i < a.len() {
            assert((a + b)[i] == a[i]);
        } else {
            assert((a + b)[i] == b[i - a.len()]);
        }
    }
}

proof fn lemma_piece_name_paren_free(c: char)
    ensures
        paren_free(spec_piece_name(c)),
{
    reveal_strlit("Pawn");
    reveal_strlit("Knight");
    reveal_strlit("Bishop");
    reveal_strlit("Rook");
    reveal_strlit("Queen");
    reveal_strlit("King");
    reveal_strlit("None");
}

proof fn lemma_file_name_paren_free(f: u8)
    ensures
        paren_free(spec_file_name(f)),
{
    reveal_strlit("Ana");
    reveal_strlit("Bela");
    reveal_strlit("Caesar");
    reveal_strlit("David");
    reveal_strlit("Eva");
    reveal_strlit("Felix");
    reveal_strlit("Gustav");
    reveal_strlit("Hector");
    reveal_strlit("unknown");
}

proof fn lemma_dec_of_paren_free(n: nat)
    ensures
        paren_free(dec_of(n)),
{
    lemma_dec_of_digits(n);
    assert forall|i: int| 0 <= i < dec_of(n).len() implies (#[trigger] dec_of(n)[i] != '('
        && dec_of(n)[i] != ')') by {
        assert(is_digit(dec_of(n)[i]));
    }
}

proof fn lemma_phrase_role_part_paren_free(role: Role)
    ensures
        paren_free(phrase_role_part(role)),
{
    broadcast use lemma_paren_free_concat;

    reveal(phrase_role_part);
    reveal_strlit(" ");
    lemma_piece_name_paren_free(role_letter(role));
}

proof fn lemma_phrase_file_part_paren_free(file: Option<u8>)
    ensures
        paren_free(phrase_file_part(file)),
{
    broadcast use lemma_paren_free_concat;

    reveal(phrase_file_part);
    reveal_strlit(" ");
    if let Some(f) = file {
        lemma_file_name_paren_free(f);
    }
}

proof fn lemma_phrase_rank_part_paren_free(rank: Option<u8>)
    ensures
        paren_free(phrase_rank_part(rank)),
{
    broadcast use lemma_paren_free_concat;

    reveal(phrase_rank_part);
    reveal_strlit(" ");
    if let Some(r) = rank {
        lemma_dec_of_paren_free((r + 1) as nat);
    }
}

proof fn lemma_phrase_capture_part_paren_free(capture: bool)
    ensures
        paren_free(phrase_capture_part(capture)),
{
    reveal(phrase_capture_part);
    reveal_strlit("takes ");
}

proof fn lemma_phrase_dest_part_paren_free(to_file: u8, to_rank: u8)
    ensures
        paren_free(phrase_dest_part(to_file, to_rank)),
{
    broadcast use lemma_paren_free_concat;

    reveal(phrase_dest_part);
    lemma_file_name_paren_free(to_file);
    lemma_dec_of_paren_free((to_rank + 1) as nat);
}

proof fn lemma_phrase_promotion_part_paren_free(promotion: Option<Role>)
    ensures
        paren_free(phrase_promotion_part(promotion)),
{
    broadcast use lemma_paren_free_concat;

    reveal(phrase_promotion_part);
    reveal_strlit(" promotes to ");
    if let Some(p) = promotion {
        lemma_piece_name_paren_free(role_letter(p));
    }
}

/// A move phrase holds no parenthesis, whatever the move.
pub proof fn lemma_move_phrase_paren_free(m: MoveEvent)
    ensures
        paren_free(move_phrase(m)),
{
    broadcast use lemma_paren_free_concat;

    match m {
        MoveEvent::Normal { role, file, rank, capture, to_file, to_rank, promotion } => {
            lemma_phrase_role_part_paren_free(role);
            lemma_phrase_file_part_paren_free(file);
            lemma_phrase_rank_part_paren_free(rank);
            lemma_phrase_capture_part_paren_free(capture);
            lemma_phrase_dest_part_paren_free(to_file, to_rank);
            lemma_phrase_promotion_part_paren_free(promotion);
        },
        MoveEvent::CastleShort => {
            reveal_strlit("Short Castling");
        },
        MoveEvent::CastleLong => {
            reveal_strlit("Long Castling");
        },
        MoveEvent::Other => {
            reveal_strlit("--");
        },
    }
}

/// The rendering of one ply holds no parenthesis, whatever the move.
pub proof fn lemma_san_text_paren_free(ply: nat, m: MoveEvent)
    ensures
        paren_free(san_text(ply, m)),
{
    broadcast use lemma_paren_free_concat;

    reveal_strlit(". ");
    reveal_strlit(" ");
    reveal_strlit("\n");
    lemma_dec_of_paren_free(ply / 2 + 1);
    lemma_move_phrase_paren_free(m);
}

proof fn lemma_piece_lines_paren_free(letter: char, placement: Seq<(u8, char)>)
    ensures
        paren_free(piece_lines(letter, placement)),
    decreases placement.len(),
{
    broadcast use lemma_paren_free_concat;

    reveal_strlit(" ");
    reveal_strlit("\n");
    if placement.len() > 0 {
        lemma_piece_lines_paren_free(letter, placement.drop_last());
        lemma_piece_name_paren_free(spec_lower_piece(letter));
        lemma_file_name_paren_free((placement.last().0 % 8) as u8);
        lemma_dec_of_paren_free((placement.last().0 / 8 + 1) as nat);
    }
}

proof fn lemma_color_block_upto_paren_free(white_side: bool, placement: Seq<(u8, char)>, k: int)
    ensures
        paren_free(color_block_upto(white_side, placement, k)),
    decreases k,
{
    if k > 0 {
        lemma_color_block_upto_paren_free(white_side, placement, k - 1);
        lemma_piece_lines_paren_free(letters_of(white_side)[k - 1], placement);
    }
}

/// The whole output of one game holds no parenthesis, provided its move
/// transcript holds none: neither the exercise framing nor the board
/// description can introduce one.
pub proof fn lemma_exercise_text_paren_free(
    number: nat,
    white_to_move: bool,
    placement: Seq<(u8, char)>,
    moves: Seq<char>,
)
    requires
        paren_free(moves),
    ensures
        paren_free(exercise_text(number, white_to_move, placement, moves)),
{
    broadcast use lemma_paren_free_concat;

    reveal_strlit("Exercise ");
    reveal_strlit(":\n");
    reveal_strlit("Solution:\n");
    reveal_strlit("White to move:\n");
    reveal_strlit("Black to move:\n");
    reveal_strlit("White:\n");
    reveal_strlit("Black:\n");
    lemma_dec_of_paren_free(number);
    lemma_color_block_upto_paren_free(true, placement, 6);
    lemma_color_block_upto_paren_free(false, placement, 6);
}

// ------------------------------------------------------------------
// Runs of events
// ------------------------------------------------------------------
/// One callback event of a run, as the driver delivers it to the engine.
pub ghost enum Event {
    Header { key: Seq<char>, value: Seq<char> },
    San { m: MoveEvent },
    Comment { text: Seq<char> },
    BeginVariation,
    EndVariation,
    EndGame,
}

/// The state after one event, mirroring the contract of the corresponding
/// engine method arm by arm.
pub open spec fn step(v: SessionView, e: Event) -> SessionView {
    match e {
        Event::Header { key, value } => {
            if v.fen is None && key == "FEN"@ {
                SessionView { fen: Some(value), ..v }
            } else {
                v
            }
        },
        Event::San { m } => SessionView {
            stack: v.stack.update(v.stack.len() - 1, ((v.top() + 1) as usize)),
            moves: v.moves + san_text((v.top() + 1) as nat, m),
            ..v
        },
        Event::Comment { text } => SessionView {
            moves: v.moves + (if v.comments {
                comment_text(text)
            } else {
                Seq::<char>::empty()
            }),
            ..v
        },
        Event::BeginVariation => {
            if !v.side_lines {
                v
            } else {
                SessionView {
                    stack: v.stack.push(((v.top() - 1) as usize)),
                    moves: v.moves + variation_open_text((v.top() - 1) as nat),
                    ..v
                }
            }
        },
        Event::EndVariation => SessionView {
            stack: v.stack.drop_last(),
            moves: v.moves.take(v.moves.len() - 1) + ")\n"@,
            ..v
        },
        Event::EndGame => SessionView {
            fen: None,
            moves: Seq::<char>::empty(),
            stack: seq![0usize],
            exercises: v.exercises + (match v.fen {
                Some(f) => {
                    if fen_safe(f) && fen_parses(f) {
                        1nat
                    } else {
                        0nat
                    }
                },
                None => 0nat,
            }),
            ..v
        },
    }
}

/// The state after a whole run of events.
pub open spec fn run(v: SessionView, events: Seq<Event>) -> SessionView
    decreases events.len(),
{
    if events.len() == 0 {
        v
    } else {
        run(step(v, events[0]), events.drop_first())
    }
}

/// Law: with side lines excluded and comments excluded, no parenthesis ever
/// appears in the move transcript, over any run of events. (A skipped side
/// line's closing event never reaches the engine, since the driver honors
/// the skip request.)
pub proof fn lemma_no_parentheses_without_side_lines(v: SessionView, events: Seq<Event>)
    requires
        !v.side_lines,
        !v.comments,
        paren_free(v.moves),
        forall|i: int| 0 <= i < events.len() ==> !(#[trigger] events[i] is EndVariation),
    ensures
        paren_free(run(v, events).moves),
    decreases events.len(),
{
    if events.len() > 0 {
        let v1 = step(v, events[0]);
        match events[0] {
            Event::San { m } => {
                lemma_san_text_paren_free((v.top() + 1) as nat, m);
                lemma_paren_free_concat(v.moves, san_text((v.top() + 1) as nat, m));
            },
            Event::Comment { text } => {
                assert(v.moves + Seq::<char>::empty() =~= v.moves);
            },
            _ => {},
        }
        assert(paren_free(v1.moves));
        lemma_no_parentheses_without_side_lines(v1, events.drop_first());
    }
}

/// Law: the finalized output of a game whose transcript is free of
/// parentheses is free of them too, whether returned raw or framed as an
/// exercise.
pub proof fn lemma_game_output_paren_free(
    v: SessionView,
    number: nat,
    white_to_move: bool,
    placement: Seq<(u8, char)>,
)
    requires
        v.wf(),
        paren_free(v.moves),
    ensures
        paren_free(finalized_transcript(v)),
        paren_free(
            exercise_text(number, white_to_move, placement, finalized_transcript(v)),
        ),
{
    reveal_strlit("\n");
    if v.top() % 2 == 1 {
        let trimmed = v.moves.take(v.moves.len() - 1);
        assert forall|i: int| 0 <= i < trimmed.len() implies (#[trigger] trimmed[i] != '('
            && trimmed[i] != ')') by {
            assert(trimmed[i] == v.moves[i]);
        }
        lemma_paren_free_concat(trimmed, "\n"@);
    }
    lemma_exercise_text_paren_free(number, white_to_move, placement, finalized_transcript(v));
}

// ------------------------------------------------------------------
// Balanced parentheses of side lines
// ------------------------------------------------------------------
proof fn lemma_count_eq_concat(a: Seq<char>, b: Seq<char>, c: char)
    ensures
        count_eq(a + b, c) == count_eq(a, c) + count_eq(b, c),
    decreases b.len(),
{
    if b.len() == 0 {
        assert(a + b =~= a);
    } else {
        lemma_count_eq_concat(a, b.drop_last(), c);
        assert((a + b).drop_last() =~= a + b.drop_last());
        assert((a + b).last() == b.last());
    }
}

proof fn lemma_paren_free_counts(s: Seq<char>)
    requires
        paren_free(s),
    ensures
        count_eq(s, '(') == 0,
        count_eq(s, ')') == 0,
    decreases s.len(),
{
    if s.len() > 0 {
        assert forall|i: int| 0 <= i < s.drop_last().len() implies (#[trigger] s.drop_last()[i]
            != '(' && s.drop_last()[i] != ')') by {
            assert(s.drop_last()[i] == s[i]);
        }
        lemma_paren_free_counts(s.drop_last());
    }
}

proof fn lemma_single_char_counts(c: char, d: char)
    ensures
        count_eq(seq![c], d) == (if c == d {
            1nat
        } else {
            0nat
        }),
{
    reveal_with_fuel(count_eq, 3);
    assert(seq![c].drop_last() =~= Seq::<char>::empty());
}

/// A side-line opening writes exactly one `(` and no `)`.
pub proof fn lemma_variation_open_counts(ply: nat)
    ensures
        count_eq(variation_open_text(ply), '(') == 1,
        count_eq(variation_open_text(ply), ')') == 0,
        variation_open_text(ply).len() > 0,
        variation_open_text(ply).last() != ')',
{
    reveal_strlit("(");
    reveal_strlit("... ");
    reveal_strlit("\n(");
    lemma_single_char_counts('(', '(');
    lemma_single_char_counts('(', ')');
    if ply % 2 == 1 {
        assert("("@ =~= seq!['(']);
        lemma_dec_of_paren_free(ply / 2 + 1);
        lemma_paren_free_counts(dec_of(ply / 2 + 1));
        assert(paren_free("... "@));
        lemma_paren_free_counts("... "@);
        lemma_count_eq_concat("("@, dec_of(ply / 2 + 1), '(');
        lemma_count_eq_concat("("@ + dec_of(ply / 2 + 1), "... "@, '(');
        lemma_count_eq_concat("("@, dec_of(ply / 2 + 1), ')');
        lemma_count_eq_concat("("@ + dec_of(ply / 2 + 1), "... "@, ')');
    } else {
        assert("\n("@ =~= seq!['\n'] + seq!['(']);
        lemma_single_char_counts('\n', '(');
        lemma_single_char_counts('\n', ')');
        lemma_count_eq_concat(seq!['\n'], seq!['('], '(');
        lemma_count_eq_concat(seq!['\n'], seq!['('], ')');
    }
}

/// A side-line closing writes exactly one `)` and no `(`.
proof fn lemma_close_counts()
    ensures
        count_eq(")\n"@, '(') == 0,
        count_eq(")\n"@, ')') == 1,
        ")\n"@.len() == 2,
        ")\n"@.last() == '\n',
{
    reveal_strlit(")\n");
    assert(")\n"@ =~= seq![')'] + seq!['\n']);
    lemma_single_char_counts(')', '(');
    lemma_single_char_counts(')', ')');
    lemma_single_char_counts('\n', '(');
    lemma_single_char_counts('\n', ')');
    lemma_count_eq_concat(seq![')'], seq!['\n'], '(');
    lemma_count_eq_concat(seq![')'], seq!['\n'], ')');
}

/// The bookkeeping that ties the transcript's parentheses to the nesting:
/// the session is well-formed, the transcript holds exactly one unmatched
/// `(` per open side line, and it never ends in a parenthesis (only a
/// freshly opened side line violates the last point, and only until its
/// first move arrives).
pub open spec fn balanced_inv(v: SessionView) -> bool {
    &&& v.wf()
    &&& count_eq(v.moves, '(') == count_eq(v.moves, ')') + v.stack.len() - 1
    &&& v.moves.len() > 0 ==> (v.moves.last() != '(' && v.moves.last() != ')')
}

/// Whether the events close side lines only while one is open, as a driver
/// honoring the documented per-game order does; `depth` is the number of
/// open lines before the first event.
pub open spec fn well_nested(events: Seq<Event>, depth: int) -> bool
    decreases events.len(),
{
    if events.len() == 0 {
        true
    } else {
        let next = match events[0] {
            Event::BeginVariation => depth + 1,
            Event::EndVariation => depth - 1,
            Event::EndGame => 1,
            _ => depth,
        };
        &&& (events[0] is EndVariation ==> depth >= 2)
        &&& well_nested(events.drop_first(), next)
    }
}

/// Whether every side-line opening is immediately followed by a move:
/// side lines with no moves at all are excluded.
pub open spec fn variations_nonempty(events: Seq<Event>) -> bool {
    forall|i: int| #![trigger events[i]]
        0 <= i < events.len() && events[i] is BeginVariation ==> (i + 1 < events.len()
            && events[i + 1] is San)
}

proof fn lemma_san_step_balanced(v: SessionView, m: MoveEvent)
    requires
        v.wf(),
        count_eq(v.moves, '(') == count_eq(v.moves, ')') + v.stack.len() - 1,
    ensures
        balanced_inv(step(v, Event::San { m })),
{
    reveal_strlit(" ");
    reveal_strlit("\n");
    let ply = (v.top() + 1) as nat;
    lemma_san_text_paren_free(ply, m);
    lemma_paren_free_counts(san_text(ply, m));
    lemma_count_eq_concat(v.moves, san_text(ply, m), '(');
    lemma_count_eq_concat(v.moves, san_text(ply, m), ')');
    let v1 = step(v, Event::San { m });
    assert(san_text(ply, m).len() > 0);
    assert(v1.moves.last() == san_text(ply, m).last());
    assert(v1.stack.len() == v.stack.len());
}

proof fn lemma_end_variation_step_balanced(v: SessionView)
    requires
        balanced_inv(v),
        v.stack.len() >= 2,
    ensures
        balanced_inv(step(v, Event::EndVariation)),
{
    reveal_strlit("\n");
    lemma_close_counts();
    let trimmed = v.moves.take(v.moves.len() - 1);
    assert(trimmed =~= v.moves.drop_last());
    lemma_count_eq_concat(trimmed, ")\n"@, '(');
    lemma_count_eq_concat(trimmed, ")\n"@, ')');
    let v1 = step(v, Event::EndVariation);
    assert(v1.moves.last() == '\n');
}

proof fn lemma_end_game_step_balanced(v: SessionView)
    ensures
        balanced_inv(step(v, Event::EndGame)),
{
    assert(count_eq(Seq::<char>::empty(), '(') == 0);
    assert(count_eq(Seq::<char>::empty(), ')') == 0);
}

/// A side-line opening paired with its first move: the opening adds one
/// unmatched `(` and one open line, and the move restores the rule that the
/// transcript never ends in a parenthesis.
proof fn lemma_open_then_san_balanced(v: SessionView, m: MoveEvent)
    requires
        balanced_inv(v),
        v.side_lines,
    ensures
        balanced_inv(step(step(v, Event::BeginVariation), Event::San { m })),
{
    let ply = (v.top() - 1) as nat;
    lemma_variation_open_counts(ply);
    lemma_count_eq_concat(v.moves, variation_open_text(ply), '(');
    lemma_count_eq_concat(v.moves, variation_open_text(ply), ')');
    let v1 = step(v, Event::BeginVariation);
    assert(v1.wf());
    assert(count_eq(v1.moves, '(') == count_eq(v1.moves, ')') + v1.stack.len() - 1);
    lemma_san_step_balanced(v1, m);
}

/// Law: with side lines included and comments excluded, the parentheses of
/// the transcript stay balanced with the nesting: over any run whose side
/// lines each hold at least one move and whose closings match its openings,
/// the transcript holds exactly one unmatched `(` per open side line — so
/// back on the main line, openings and closings are equal.
#[verifier::rlimit(50)]
pub proof fn lemma_side_line_parentheses_balanced(v: SessionView, events: Seq<Event>)
    requires
        v.side_lines,
        !v.comments,
        balanced_inv(v),
        well_nested(events, v.stack.len() as int),
        variations_nonempty(events),
    ensures
        balanced_inv(run(v, events)),
        run(v, events).stack.len() == 1 ==> count_eq(run(v, events).moves, '(') == count_eq(
            run(v, events).moves,
            ')',
        ),
    decreases events.len(),
{
    if events.len() > 0 {
        let e = events[0];
        let v1 = step(v, e);
        let rest = events.drop_first();
        match e {
            Event::Header { key, value } => {
                lemma_side_line_parentheses_balanced(v1, rest);
            },
            Event::San { m } => {
                lemma_san_step_balanced(v, m);
                lemma_side_line_parentheses_balanced(v1, rest);
            },
            Event::Comment { text } => {
                assert(v1.moves =~= v.moves);
                lemma_side_line_parentheses_balanced(v1, rest);
            },
            Event::EndGame => {
                lemma_end_game_step_balanced(v);
                lemma_side_line_parentheses_balanced(v1, rest);
            },
            Event::EndVariation => {
                lemma_end_variation_step_balanced(v);
                lemma_side_line_parentheses_balanced(v1, rest);
            },
            Event::BeginVariation => {
                {
                    reveal_with_fuel(run, 3);
                    reveal_with_fuel(well_nested, 3);
                    assert(events[1] is San);
                    let m = events[1]->San_m;
                    let v2 = step(v1, Event::San { m });
                    lemma_open_then_san_balanced(v, m);
                    let rest2 = events.skip(2);
                    assert(rest2 =~= rest.drop_first());
                    assert(rest[0] == events[1]);
                    assert(run(v, events) == run(v2, rest2));
                    assert(well_nested(rest2, v2.stack.len() as int));
                    assert forall|i: int| #![trigger rest2[i]]
                        0 <= i < rest2.len() && rest2[i] is BeginVariation implies (i + 1
                            < rest2.len() && rest2[i + 1] is San) by {
                        assert(rest2[i] == events[i + 2]);
                        assert(events[i + 2] is BeginVariation ==> i + 3 < events.len()
                            && events[i + 3] is San);
                        if i + 1 < rest2.len() {
                            assert(rest2[i + 1] == events[i + 3]);
                        }
                    }
                    lemma_side_line_parentheses_balanced(v2, rest2);
                }
            },
        }
    }
}

/// Law: the exercise counter never resets within a run; an event either
/// keeps it or advances it.
pub proof fn lemma_exercise_counter_monotonic(v: SessionView, events: Seq<Event>)
    ensures
        run(v, events).exercises >= v.exercises,
    decreases events.len(),
{
    if events.len() > 0 {
        lemma_exercise_counter_monotonic(step(v, events[0]), events.drop_first());
    }
}

/// Law: the configuration flags never change within a run; only a new
/// converter chooses them anew.
pub proof fn lemma_configuration_stable(v: SessionView, events: Seq<Event>)
    ensures
        run(v, events).side_lines == v.side_lines,
        run(v, events).comments == v.comments,
    decreases events.len(),
{
    if events.len() > 0 {
        lemma_configuration_stable(step(v, events[0]), events.drop_first());
    }
}

} // verus!
