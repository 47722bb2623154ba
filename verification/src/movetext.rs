//! The move notation translator: renders one decoded move event as a
//! phonetic phrase, and one ply as a numbered line fragment.

use crate::naming::{file_name_str, piece_name_str, spec_file_name, spec_piece_name};
use crate::text::{dec_of, push_dec};
use vstd::prelude::*;

verus! {

/// The six chess piece roles.
#[derive(Clone, Copy, PartialEq, Eq, Structural, Debug)]
pub enum Role {
    Pawn,
    Knight,
    Bishop,
    Rook,
    Queen,
    King,
}

/// The lower-case FEN letter of a role.
pub open spec fn role_letter(role: Role) -> char {
    match role {
        Role::Pawn => 'p',
        Role::Knight => 'n',
        Role::Bishop => 'b',
        Role::Rook => 'r',
        Role::Queen => 'q',
        Role::King => 'k',
    }
}

/// The lower-case FEN letter of a role.
pub fn role_char(role: Role) -> (c: char)
    ensures
        c == role_letter(role),
{
    match role {
        Role::Pawn => 'p',
        Role::Knight => 'n',
        Role::Bishop => 'b',
        Role::Rook => 'r',
        Role::Queen => 'q',
        Role::King => 'k',
    }
}

/// One decoded move, as delivered by the PGN driver: a normal move with its
/// optional disambiguation, capture flag, destination and optional promotion;
/// a castle by side; or an unmodeled move shape.
///
/// Files and ranks are 0-based indices (0 is file a / rank 1).
#[derive(Clone, Copy, Debug)]
pub enum MoveEvent {
    Normal {
        role: Role,
        file: Option<u8>,
        rank: Option<u8>,
        capture: bool,
        to_file: u8,
        to_rank: u8,
        promotion: Option<Role>,
    },
    CastleShort,
    CastleLong,
    Other,
}

/// The piece-name part of a move phrase, omitted for pawns.
#[verifier::opaque]
pub open spec fn phrase_role_part(role: Role) -> Seq<char> {
    match role {
        Role::Pawn => Seq::<char>::empty(),
        _ => spec_piece_name(role_letter(role)) + " "@,
    }
}

/// The disambiguating file word, when present.
#[verifier::opaque]
pub open spec fn phrase_file_part(file: Option<u8>) -> Seq<char> {
    match file {
        Some(f) => spec_file_name(f) + " "@,
        None => Seq::<char>::empty(),
    }
}

/// The disambiguating rank digit, when present (ranks render 1-based).
#[verifier::opaque]
pub open spec fn phrase_rank_part(rank: Option<u8>) -> Seq<char> {
    match rank {
        Some(r) => dec_of((r + 1) as nat) + " "@,
        None => Seq::<char>::empty(),
    }
}

/// The word `"takes "` on a capture.
#[verifier::opaque]
pub open spec fn phrase_capture_part(capture: bool) -> Seq<char> {
    if capture {
        "takes "@
    } else {
        Seq::<char>::empty()
    }
}

/// The destination square as file word plus 1-based rank digit.
#[verifier::opaque]
pub open spec fn phrase_dest_part(to_file: u8, to_rank: u8) -> Seq<char> {
    spec_file_name(to_file) + dec_of((to_rank + 1) as nat)
}

/// The promotion suffix, when present.
#[verifier::opaque]
pub open spec fn phrase_promotion_part(promotion: Option<Role>) -> Seq<char> {
    match promotion {
        Some(p) => " promotes to "@ + spec_piece_name(role_letter(p)),
        None => Seq::<char>::empty(),
    }
}

/// The phonetic phrase for one move: piece name (omitted for pawns),
/// disambiguating file word and rank digit, `"takes"` on capture, the
/// destination as file word plus rank digit, and the promotion piece.
/// Castles become fixed phrases; unmodeled shapes the placeholder `"--"`.
pub open spec fn move_phrase(m: MoveEvent) -> Seq<char> {
    match m {
        MoveEvent::Normal { role, file, rank, capture, to_file, to_rank, promotion } => {
            phrase_role_part(role) + phrase_file_part(file) + phrase_rank_part(rank)
                + phrase_capture_part(capture) + phrase_dest_part(to_file, to_rank)
                + phrase_promotion_part(promotion)
        },
        MoveEvent::CastleShort => "Short Castling"@,
        MoveEvent::CastleLong => "Long Castling"@,
        MoveEvent::Other => "--"@,
    }
}

/// The move-number marker written before the first ply of each full move:
/// `"<n>. "` for the move number `n`.
pub open spec fn marker(ply: nat) -> Seq<char> {
    dec_of(ply / 2 + 1) + ". "@
}

/// The full text appended for one ply: the move-number marker when the new
/// ply count `ply` is odd, then the move phrase, then a newline after an even
/// ply (two plies per line) or a space after an odd one.
pub open spec fn san_text(ply: nat, m: MoveEvent) -> Seq<char> {
    (if ply % 2 == 1 {
        marker(ply)
    } else {
        Seq::<char>::empty()
    }) + move_phrase(m) + (if ply % 2 == 0 {
        "\n"@
    } else {
        " "@
    })
}

/// The text appended when a side line opens, for the ply count `ply` the
/// variation starts from: an opening parenthesis with a continuation marker
/// `"<n>... "` when `ply` is odd, else a newline and the parenthesis alone.
pub open spec fn variation_open_text(ply: nat) -> Seq<char> {
    if ply % 2 == 1 {
        "("@ + dec_of(ply / 2 + 1) + "... "@
    } else {
        "\n("@
    }
}

/// Appends the phonetic phrase for the move `m` to `out`.
pub fn push_move_phrase(out: &mut String, m: MoveEvent)
    ensures
        final(out)@ == old(out)@ + move_phrase(m),
{
    match m {
        MoveEvent::Normal { role, file, rank, capture, to_file, to_rank, promotion } => {
            let ghost base = out@;
            match role {
                Role::Pawn => {},
                _ => {
                    out.append(piece_name_str(role_char(role)));
                    out.append(" ");
                },
            }
            proof {
                assert(out@ =~= base + phrase_role_part(role)) by {
                    reveal(phrase_role_part);
                }
            }
            let ghost s1 = out@;
            if let Some(f) = file {
                out.append(file_name_str(f));
                out.append(" ");
            }
            proof {
                assert(out@ =~= s1 + phrase_file_part(file)) by {
                    reveal(phrase_file_part);
                }
            }
            let ghost s2 = out@;
            if let Some(r) = rank {
                push_dec(out, r as usize + 1);
                out.append(" ");
            }
            proof {
                assert(out@ =~= s2 + phrase_rank_part(rank)) by {
                    reveal(phrase_rank_part);
                }
            }
            let ghost s3 = out@;
            if capture {
                out.append("takes ");
            }
            proof {
                assert(out@ =~= s3 + phrase_capture_part(capture)) by {
                    reveal(phrase_capture_part);
                }
            }
            let ghost s4 = out@;
            out.append(file_name_str(to_file));
            push_dec(out, to_rank as usize + 1);
            proof {
                assert(out@ =~= s4 + phrase_dest_part(to_file, to_rank)) by {
                    reveal(phrase_dest_part);
                }
            }
            let ghost s5 = out@;
            if let Some(p) = promotion {
                out.append(" promotes to ");
                out.append(piece_name_str(role_char(p)));
            }
            proof {
                assert(out@ =~= s5 + phrase_promotion_part(promotion)) by {
                    reveal(phrase_promotion_part);
                }
                assert(out@ =~= base + move_phrase(m));
            }
        },
        MoveEvent::CastleShort => {
            out.append("Short Castling");
        },
        MoveEvent::CastleLong => {
            out.append("Long Castling");
        },
        MoveEvent::Other => {
            out.append("--");
        },
    }
}

} // verus!
