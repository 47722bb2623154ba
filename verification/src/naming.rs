//! Naming tables: total mappings from piece letters to piece names and from
//! file indices to phonetic file words.

use crate::engine::PositionConverter;
use vstd::prelude::*;

verus! {

/// The spoken name of the piece whose lower-case FEN letter is `piece`;
/// unrecognized letters map to the sentinel `"None"`.
pub open spec fn spec_piece_name(piece: char) -> Seq<char> {
    if piece == 'p' {
        "Pawn"@
    } else if piece == 'n' {
        "Knight"@
    } else if piece == 'b' {
        "Bishop"@
    } else if piece == 'r' {
        "Rook"@
    } else if piece == 'q' {
        "Queen"@
    } else if piece == 'k' {
        "King"@
    } else {
        "None"@
    }
}

/// The phonetic word for the file with index `file` (0 through 7);
/// out-of-range indices map to the sentinel `"unknown"`.
pub open spec fn spec_file_name(file: u8) -> Seq<char> {
    if file == 0 {
        "Ana"@
    } else if file == 1 {
        "Bela"@
    } else if file == 2 {
        "Caesar"@
    } else if file == 3 {
        "David"@
    } else if file == 4 {
        "Eva"@
    } else if file == 5 {
        "Felix"@
    } else if file == 6 {
        "Gustav"@
    } else if file == 7 {
        "Hector"@
    } else {
        "unknown"@
    }
}

/// The spoken piece name for a lower-case FEN piece letter.
pub fn piece_name_str(piece: char) -> (name: &'static str)
    ensures
        name@ == spec_piece_name(piece),
{
    match piece {
        'p' => "Pawn",
        'n' => "Knight",
        'b' => "Bishop",
        'r' => "Rook",
        'q' => "Queen",
        'k' => "King",
        _ => "None",
    }
}

/// The phonetic word for a file index.
pub fn file_name_str(file: u8) -> (name: &'static str)
    ensures
        name@ == spec_file_name(file),
{
    match file {
        0 => "Ana",
        1 => "Bela",
        2 => "Caesar",
        3 => "David",
        4 => "Eva",
        5 => "Felix",
        6 => "Gustav",
        7 => "Hector",
        _ => "unknown",
    }
}

/// The lower-case form of a FEN piece letter; letters outside the twelve
/// piece letters are returned unchanged.
pub open spec fn spec_lower_piece(letter: char) -> char {
    if letter == 'P' {
        'p'
    } else if letter == 'N' {
        'n'
    } else if letter == 'B' {
        'b'
    } else if letter == 'R' {
        'r'
    } else if letter == 'Q' {
        'q'
    } else if letter == 'K' {
        'k'
    } else {
        letter
    }
}

/// Lower-cases a FEN piece letter.
pub fn lower_piece(letter: char) -> (lower: char)
    ensures
        lower == spec_lower_piece(letter),
{
    match letter {
        'P' => 'p',
        'N' => 'n',
        'B' => 'b',
        'R' => 'r',
        'Q' => 'q',
        'K' => 'k',
        _ => letter,
    }
}

impl PositionConverter {
    /// The spoken name of the piece with the given lower-case FEN letter.
    pub fn get_piece_name(&self, piece: char) -> (name: &'static str)
        ensures
            name@ == spec_piece_name(piece),
    {
        piece_name_str(piece)
    }

    /// The phonetic word for the file with the given index.
    pub fn get_file_name(&self, file_number: u8) -> (name: &'static str)
        ensures
            name@ == spec_file_name(file_number),
    {
        file_name_str(file_number)
    }
}

} // verus!
