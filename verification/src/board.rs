//! The board describer: renders a decoded starting position as an enumerated
//! "White/Black pieces" text block.
//!
//! A placement is a sequence of `(square, piece letter)` pairs in the
//! decoder's enumeration order; square indices count `rank * 8 + file` from
//! a1, and the letter's case gives the color, as in FEN.

use crate::engine::PositionConverter;
use crate::naming::{
    file_name_str, lower_piece, piece_name_str, spec_file_name, spec_lower_piece, spec_piece_name,
};
use crate::text::{dec_of, push_dec};
use vstd::prelude::*;

verus! {

/// The fixed order in which each side's piece letters are described.
pub open spec fn letters_of(white_side: bool) -> Seq<char> {
    if white_side {
        seq!['P', 'N', 'B', 'R', 'Q', 'K']
    } else {
        seq!['p', 'n', 'b', 'r', 'q', 'k']
    }
}

/// The spoken name of the square with index `sq`: its file word followed by
/// its 1-based rank digit.
pub open spec fn square_text(sq: u8) -> Seq<char> {
    spec_file_name((sq % 8) as u8) + dec_of((sq / 8 + 1) as nat)
}

/// One description line for a piece with letter `letter` on square `sq`.
pub open spec fn piece_line(letter: char, sq: u8) -> Seq<char> {
    spec_piece_name(spec_lower_piece(letter)) + " "@ + square_text(sq) + "\n"@
}

/// The description lines for every piece of `placement` whose letter is
/// `letter`, in placement order.
pub open spec fn piece_lines(letter: char, placement: Seq<(u8, char)>) -> Seq<char>
    decreases placement.len(),
{
    if placement.len() == 0 {
        Seq::<char>::empty()
    } else {
        piece_lines(letter, placement.drop_last()) + (if placement.last().1 == letter {
            piece_line(letter, placement.last().0)
        } else {
            Seq::<char>::empty()
        })
    }
}

/// One side's piece lines: each of the side's letters in fixed order, with
/// that letter's pieces in placement order; letters without pieces contribute
/// nothing.
pub open spec fn color_block(white_side: bool, placement: Seq<(u8, char)>) -> Seq<char> {
    color_block_upto(white_side, placement, 6)
}

/// The first `k` letters' worth of a side's piece lines.
pub open spec fn color_block_upto(white_side: bool, placement: Seq<(u8, char)>, k: int) -> Seq<
    char,
>
    decreases k,
{
    if k <= 0 {
        Seq::<char>::empty()
    } else {
        color_block_upto(white_side, placement, k - 1) + piece_lines(
            letters_of(white_side)[k - 1],
            placement,
        )
    }
}

/// The full position description: whose turn it is, then the side to move's
/// block, then the other side's.
pub open spec fn board_text(white_to_move: bool, placement: Seq<(u8, char)>) -> Seq<char> {
    if white_to_move {
        "White to move:\n"@ + "White:\n"@ + color_block(true, placement) + "Black:\n"@
            + color_block(false, placement)
    } else {
        "Black to move:\n"@ + "Black:\n"@ + color_block(false, placement) + "White:\n"@
            + color_block(true, placement)
    }
}

/// A whole exercise: the numbered heading, the position description, and the
/// solution block when there are moves.
pub open spec fn exercise_text(
    number: nat,
    white_to_move: bool,
    placement: Seq<(u8, char)>,
    moves: Seq<char>,
) -> Seq<char> {
    "Exercise "@ + dec_of(number) + ":\n"@ + board_text(white_to_move, placement) + (if moves.len()
        > 0 {
        "Solution:\n"@ + moves
    } else {
        Seq::<char>::empty()
    })
}

/// The letter at position `i` of a side's fixed letter order.
fn letter_at(white_side: bool, i: usize) -> (c: char)
    requires
        i < 6,
    ensures
        c == letters_of(white_side)[i as int],
{
    if white_side {
        match i {
            0 => 'P',
            1 => 'N',
            2 => 'B',
            3 => 'R',
            4 => 'Q',
            _ => 'K',
        }
    } else {
        match i {
            0 => 'p',
            1 => 'n',
            2 => 'b',
            3 => 'r',
            4 => 'q',
            _ => 'k',
        }
    }
}

/// Appends the spoken name of square `sq` to `out`.
pub fn push_square_text(out: &mut String, sq: u8)
    ensures
        final(out)@ == old(out)@ + square_text(sq),
{
    out.append(file_name_str(sq % 8));
    push_dec(out, (sq / 8) as usize + 1);
    proof {
        assert(out@ =~= old(out)@ + square_text(sq));
    }
}

/// Appends the description lines of every piece of `placement` whose letter
/// is `letter`, in placement order.
fn push_piece_lines(out: &mut String, letter: char, placement: &Vec<(u8, char)>)
    ensures
        final(out)@ == old(out)@ + piece_lines(letter, placement@),
{
    let ghost base = out@;
    let n = placement.len();
    for j in 0..n
        invariant
            n == placement@.len(),
            out@ == base + piece_lines(letter, placement@.take(j as int)),
    {
        if placement[j].1 == letter {
            out.append(piece_name_str(lower_piece(letter)));
            out.append(" ");
            push_square_text(out, placement[j].0);
            out.append("\n");
        }
        proof {
            let s = placement@.take(j + 1);
            assert(s.drop_last() =~= placement@.take(j as int));
            assert(s.last() == placement@[j as int]);
            assert(out@ =~= base + piece_lines(letter, s));
        }
    }
    proof {
        assert(placement@.take(n as int) =~= placement@);
    }
}

/// Appends one side's piece lines to `out`.
pub fn push_color_block(out: &mut String, white_side: bool, placement: &Vec<(u8, char)>)
    ensures
        final(out)@ == old(out)@ + color_block(white_side, placement@),
{
    let ghost base = out@;
    for i in 0..6usize
        invariant
            out@ == base + color_block_upto(white_side, placement@, i as int),
    {
        push_piece_lines(out, letter_at(white_side, i), placement);
        proof {
            assert(out@ =~= base + color_block_upto(white_side, placement@, i + 1));
        }
    }
}

/// Appends the full position description for `placement` to `out`.
pub fn push_board_text(out: &mut String, white_to_move: bool, placement: &Vec<(u8, char)>)
    ensures
        final(out)@ == old(out)@ + board_text(white_to_move, placement@),
{
    if white_to_move {
        out.append("White to move:\n");
        out.append("White:\n");
        push_color_block(out, true, placement);
        out.append("Black:\n");
        push_color_block(out, false, placement);
    } else {
        out.append("Black to move:\n");
        out.append("Black:\n");
        push_color_block(out, false, placement);
        out.append("White:\n");
        push_color_block(out, true, placement);
    }
    proof {
        assert(out@ =~= old(out)@ + board_text(white_to_move, placement@));
    }
}

impl PositionConverter {
    /// The spoken name of a square, as used in board descriptions and move
    /// phrases.
    pub fn describe_square(&self, square: u8) -> (text: String)
        ensures
            text@ == square_text(square),
    {
        let mut square_description = String::new();
        push_square_text(&mut square_description, square);
        square_description
    }

    /// Appends one side's piece lines to `description`: the side's letters in
    /// fixed order, each letter's pieces in placement order.
    pub fn describe_pieces(
        &self,
        description: &mut String,
        white_side: bool,
        placement: &Vec<(u8, char)>,
    )
        ensures
            final(description)@ == old(description)@ + color_block(white_side, placement@),
    {
        push_color_block(description, white_side, placement);
    }
}

} // verus!
