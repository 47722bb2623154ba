//! FEN decoding through the external chess-board library.
//!
//! The decoder (pleco's `Board::from_fen`) rejects malformed FEN strings
//! with an error, but on a few degenerate shapes it aborts instead of
//! returning: a castling-availability field with a letter outside `KQkq-`,
//! a piece placement without exactly one king per side, and a full-move
//! counter of `0` or above `32768`. [`fen_safe`] states the textual
//! conditions that keep the call away from those shapes; the verified guard
//! [`fen_guard`] decides it, and the engine treats a FEN outside it as
//! malformed.

use vstd::prelude::*;

verus! {

/// Whether `c` separates FEN fields.
pub open spec fn is_sep(c: char) -> bool {
    c == ' '
}

/// Whether `s` consists of spaces and printable ASCII alone. Restricting a
/// FEN to such characters makes its space-separated field structure the same
/// as the decoder's whitespace splitting.
pub open spec fn printable_ascii(s: Seq<char>) -> bool {
    forall|i: int| 0 <= i < s.len() ==> (' ' <= #[trigger] s[i] && s[i] <= '~')
}

/// The length of the maximal leading run of non-separator characters.
pub open spec fn word_len(s: Seq<char>) -> nat
    decreases s.len(),
{
    if s.len() == 0 || is_sep(s[0]) {
        0
    } else {
        1 + word_len(s.drop_first())
    }
}

/// A leading word is never longer than the text, and is delimited by the
/// text's end or a separator.
pub proof fn lemma_word_len_bounds(s: Seq<char>)
    ensures
        word_len(s) <= s.len(),
        word_len(s) < s.len() ==> is_sep(s[word_len(s) as int]),
        forall|i: int| 0 <= i < word_len(s) ==> !is_sep(s[i]),
    decreases s.len(),
{
    if s.len() > 0 && !is_sep(s[0]) {
        lemma_word_len_bounds(s.drop_first());
        assert forall|i: int| 0 <= i < word_len(s) implies !is_sep(s[i]) by {
            if i > 0 {
                assert(s.drop_first()[i - 1] == s[i]);
            }
        }
    }
}

/// The maximal leading run of non-separators is determined by its bounds.
pub proof fn lemma_word_len_is(s: Seq<char>, k: nat)
    requires
        k <= s.len(),
        forall|i: int| 0 <= i < k ==> !is_sep(s[i]),
        k == s.len() || is_sep(s[k as int]),
    ensures
        word_len(s) == k,
    decreases k,
{
    if k > 0 {
        lemma_word_len_is(s.drop_first(), (k - 1) as nat);
    }
}

/// The separator-delimited fields of `s`, in order, with empty fields
/// skipped, as whitespace splitting produces them.
pub open spec fn fields_of(s: Seq<char>) -> Seq<Seq<char>>
    decreases s.len(),
    via fields_of_decreases
{
    if s.len() == 0 {
        Seq::<Seq<char>>::empty()
    } else if is_sep(s[0]) {
        fields_of(s.drop_first())
    } else {
        seq![s.take(word_len(s) as int)] + fields_of(s.skip(word_len(s) as int))
    }
}

#[via_fn]
proof fn fields_of_decreases(s: Seq<char>) {
    if s.len() > 0 && !is_sep(s[0]) {
        lemma_word_len_bounds(s);
    }
}

/// How many characters of `s` equal `c`.
pub open spec fn count_eq(s: Seq<char>, c: char) -> nat
    decreases s.len(),
{
    if s.len() == 0 {
        0
    } else {
        count_eq(s.drop_last(), c) + (if s.last() == c {
            1nat
        } else {
            0nat
        })
    }
}

/// Whether every character of a castling-availability field is one the
/// decoder knows: the four castling letters or the dash.
pub open spec fn castle_chars_ok(s: Seq<char>) -> bool {
    forall|i: int|
        0 <= i < s.len() ==> (s[i] == 'K' || s[i] == 'Q' || s[i] == 'k' || s[i] == 'q' || #[trigger] s[i]
            == '-')
}

/// The numeric value of a digit sequence, most significant digit first.
pub open spec fn digits_val(s: Seq<char>) -> nat
    decreases s.len(),
{
    if s.len() == 0 {
        0
    } else {
        digits_val(s.drop_last()) * 10 + digit_val(s.last())
    }
}

/// The value of one digit character (0 for non-digits).
pub open spec fn digit_val(c: char) -> nat {
    if c == '1' {
        1
    } else if c == '2' {
        2
    } else if c == '3' {
        3
    } else if c == '4' {
        4
    } else if c == '5' {
        5
    } else if c == '6' {
        6
    } else if c == '7' {
        7
    } else if c == '8' {
        8
    } else if c == '9' {
        9
    } else {
        0
    }
}

/// Whether every character of `s` is a decimal digit.
pub open spec fn all_digits(s: Seq<char>) -> bool {
    forall|i: int| 0 <= i < s.len() ==> crate::text::is_digit(#[trigger] s[i])
}

/// The digit part of an unsigned numeral: everything after an optional
/// leading plus sign.
pub open spec fn numeral_digits(s: Seq<char>) -> Seq<char> {
    if s.len() >= 1 && s[0] == '+' {
        s.drop_first()
    } else {
        s
    }
}

/// Whether standard unsigned 16-bit parsing accepts `s`: an optional leading
/// plus, then at least one digit, with a value that fits.
pub open spec fn parses_u16(s: Seq<char>) -> bool {
    &&& numeral_digits(s).len() >= 1
    &&& all_digits(numeral_digits(s))
    &&& digits_val(numeral_digits(s)) <= 65535
}

/// Whether a full-move field stays inside the decoder's arithmetic range:
/// it is the dash, or it is not a 16-bit numeral at all (the decoder then
/// rejects the FEN), or its value is between 1 and 32768.
pub open spec fn fullmove_field_ok(s: Seq<char>) -> bool {
    ||| s == "-"@
    ||| !parses_u16(s)
    ||| (1 <= digits_val(numeral_digits(s)) && digits_val(numeral_digits(s)) <= 32768)
}

/// The textual conditions under which the external decoder is known to
/// return (accepting or rejecting) on every input: printable ASCII; and,
/// when the text has the four to six fields of a FEN, exactly one king per
/// side in the placement field, a castling field drawn from `KQkq-`, and a
/// full-move field inside the decoder's arithmetic range.
pub open spec fn fen_safe(s: Seq<char>) -> bool {
    &&& printable_ascii(s)
    &&& {
        ||| fields_of(s).len() < 4
        ||| fields_of(s).len() > 6
        ||| {
            &&& count_eq(fields_of(s)[0], 'K') == 1
            &&& count_eq(fields_of(s)[0], 'k') == 1
            &&& castle_chars_ok(fields_of(s)[2])
            &&& (fields_of(s).len() == 6 ==> fullmove_field_ok(fields_of(s)[5]))
        }
    }
}

/// Whether the external decoder accepts `fen` as a position; meaningful on
/// FENs that satisfy [`fen_safe`].
pub uninterp spec fn fen_parses(fen: Seq<char>) -> bool;

/// The position the external decoder reads from `fen`: whether White is to
/// move, and the `(square, piece letter)` pairs of the placement in the
/// decoder's enumeration order (square index 0 is a1, 63 is h8).
pub uninterp spec fn fen_position(fen: Seq<char>) -> (bool, Seq<(u8, char)>);

/// Relies on pleco's `Board::from_fen`, `Board::turn` and
/// `Board::get_piece_locations`: decodes a FEN string into the side to move
/// and the piece placement, returning `None` exactly when the decoder
/// rejects the FEN. The placement iteration yields the occupied squares in
/// ascending square order, each with its piece's FEN letter from
/// `Piece::character`. The `fen_safe` precondition keeps the call inside
/// the domain on which the decoder returns on every input.
#[verifier::external_body]
pub(crate) fn decode_fen(fen: &str) -> (decoded: Option<(bool, Vec<(u8, char)>)>)
    requires
        fen_safe(fen@),
    ensures
        decoded is Some <==> fen_parses(fen@),
        decoded matches Some(p) ==> p.0 == fen_position(fen@).0 && p.1@ == fen_position(fen@).1,
{
    let board = match pleco::board::Board::from_fen(fen) {
        Ok(b) => b,
        Err(_) => return None,
    };
    let white = board.turn() == pleco::core::Player::White;
    let mut placement: Vec<(u8, char)> = Vec::new();
    for (sq, piece) in board.get_piece_locations() {
        if let Some(c) = piece.character() {
            placement.push((sq.0, c));
        }
    }
    Some((white, placement))
}

/// Splits a string into its separator-delimited fields.
fn split_fields(s: &str) -> (fields: Vec<String>)
    ensures
        fields@.map_values(|f: String| f@) == fields_of(s@),
{
    let n = s.unicode_len();
    let mut fields: Vec<String> = Vec::new();
    let mut i: usize = 0;
    proof {
        assert(s@.skip(0) =~= s@);
        assert(fields@.map_values(|f: String| f@) + fields_of(s@) =~= fields_of(s@));
    }
    while i < n
        invariant
            n == s@.len(),
            i <= n,
            fields@.map_values(|f: String| f@) + fields_of(s@.skip(i as int)) == fields_of(s@),
        decreases n - i,
    {
        if s.get_char(i) == ' ' {
            proof {
                assert(s@.skip(i as int).drop_first() =~= s@.skip(i + 1));
            }
            i = i + 1;
        } else {
            let ghost before = fields@.map_values(|f: String| f@);
            let start = i;
            let mut j = i + 1;
            while j < n && s.get_char(j) != ' '
                invariant
                    n == s@.len(),
                    start < j <= n,
                    forall|m: int| start <= m < j ==> !is_sep(s@[m]),
                decreases n - j,
            {
                j = j + 1;
            }
            proof {
                let t = s@.skip(start as int);
                assert(forall|m: int| 0 <= m < j - start ==> !is_sep(t[m]));
                if j < n {
                    assert(is_sep(t[j - start]));
                }
                lemma_word_len_is(t, (j - start) as nat);
            }
            let word = String::from_str(s.substring_char(start, j));
            fields.push(word);
            proof {
                let t = s@.skip(start as int);
                assert(t.take(word_len(t) as int) =~= word@);
                assert(t.skip(word_len(t) as int) =~= s@.skip(j as int));
                assert(fields_of(t) == seq![word@] + fields_of(s@.skip(j as int)));
                assert(fields@.map_values(|f: String| f@) =~= before + seq![word@]);
                assert((before + seq![word@]) + fields_of(s@.skip(j as int)) =~= before
                    + fields_of(t));
            }
            i = j;
        }
    }
    proof {
        assert(s@.skip(n as int) =~= Seq::<char>::empty());
        assert(fields@.map_values(|f: String| f@) =~= fields_of(s@));
    }
    fields
}

/// Counts the characters of `s` that equal `c`.
fn count_char(s: &str, c: char) -> (count: usize)
    ensures
        count == count_eq(s@, c),
{
    let n = s.unicode_len();
    let mut count: usize = 0;
    let mut i: usize = 0;
    while i < n
        invariant
            n == s@.len(),
            i <= n,
            count == count_eq(s@.take(i as int), c),
            count <= i,
        decreases n - i,
    {
        if s.get_char(i) == c {
            count = count + 1;
        }
        proof {
            assert(s@.take(i + 1).drop_last() =~= s@.take(i as int));
        }
        i = i + 1;
    }
    proof {
        assert(s@.take(n as int) =~= s@);
    }
    count
}

/// Whether every character of `s` is one of the castling letters or a dash.
fn castle_field_ok(s: &str) -> (ok: bool)
    ensures
        ok == castle_chars_ok(s@),
{
    let n = s.unicode_len();
    let mut i: usize = 0;
    while i < n
        invariant
            n == s@.len(),
            i <= n,
            forall|m: int|
                0 <= m < i ==> (s@[m] == 'K' || s@[m] == 'Q' || s@[m] == 'k' || s@[m] == 'q'
                    || #[trigger] s@[m] == '-'),
        decreases n - i,
    {
        let c = s.get_char(i);
        if !(c == 'K' || c == 'Q' || c == 'k' || c == 'q' || c == '-') {
            return false;
        }
        i = i + 1;
    }
    true
}

/// Whether a full-move field stays inside the decoder's arithmetic range.
fn fullmove_ok(s: &str) -> (ok: bool)
    ensures
        ok == fullmove_field_ok(s@),
{
    proof {
        reveal_strlit("-");
    }
    let n = s.unicode_len();
    if n == 1 && s.get_char(0) == '-' {
        proof {
            assert(s@ =~= "-"@);
        }
        return true;
    }
    let start: usize = if n >= 1 && s.get_char(0) == '+' {
        1
    } else {
        0
    };
    if start == n {
        // No digits at all: not a numeral, so the decoder rejects the FEN.
        return true;
    }
    let ghost digits = numeral_digits(s@);
    proof {
        assert(digits =~= s@.skip(start as int));
    }
    let mut value: u64 = 0;
    let mut i: usize = start;
    while i < n
        invariant
            n == s@.len(),
            start <= i <= n,
            digits == numeral_digits(s@),
            digits =~= s@.skip(start as int),
            forall|m: int| 0 <= m < i - start ==> crate::text::is_digit(#[trigger] digits[m]),
            digits_val(digits.take(i - start)) <= 65535 ==> value == digits_val(
                digits.take(i - start),
            ),
            digits_val(digits.take(i - start)) > 65535 ==> value > 65535,
            value <= 655359,
        decreases n - i,
    {
        let c = s.get_char(i);
        let d: u64 = match c {
            '0' => 0,
            '1' => 1,
            '2' => 2,
            '3' => 3,
            '4' => 4,
            '5' => 5,
            '6' => 6,
            '7' => 7,
            '8' => 8,
            '9' => 9,
            _ => {
                // Not a numeral: the decoder rejects the FEN.
                proof {
                    assert(digits[i - start] == c);
                    assert(!all_digits(digits));
                }
                return true;
            },
        };
        proof {
            assert(digits.take(i + 1 - start).drop_last() =~= digits.take(i - start));
            assert(digits.take(i + 1 - start).last() == digits[i - start]);
        }
        if value <= 65535 {
            value = value * 10 + d;
        }
        i = i + 1;
    }
    proof {
        assert(digits.take(n - start) =~= digits);
    }
    value > 65535 || (1 <= value && value <= 32768)
}

/// Whether every character of `s` is a space or printable ASCII.
fn printable_ascii_exec(s: &str) -> (ok: bool)
    ensures
        ok == printable_ascii(s@),
{
    let n = s.unicode_len();
    let mut i: usize = 0;
    while i < n
        invariant
            n == s@.len(),
            i <= n,
            forall|m: int| 0 <= m < i ==> (' ' <= #[trigger] s@[m] && s@[m] <= '~'),
        decreases n - i,
    {
        let c = s.get_char(i);
        if !(' ' <= c && c <= '~') {
            return false;
        }
        i = i + 1;
    }
    true
}

/// Decides [`fen_safe`]: whether `fen` is a string on which the external
/// decoder is known to return.
pub fn fen_guard(fen: &str) -> (safe: bool)
    ensures
        safe == fen_safe(fen@),
{
    if !printable_ascii_exec(fen) {
        return false;
    }
    let fields = split_fields(fen);
    let nf = fields.len();
    proof {
        assert(fields@.map_values(|f: String| f@).len() == fields_of(fen@).len());
    }
    if nf < 4 || nf > 6 {
        return true;
    }
    proof {
        assert(fields@[0]@ == fields_of(fen@)[0]);
        assert(fields@[2]@ == fields_of(fen@)[2]);
    }
    if !(count_char(fields[0].as_str(), 'K') == 1 && count_char(fields[0].as_str(), 'k') == 1) {
        return false;
    }
    if !castle_field_ok(fields[2].as_str()) {
        return false;
    }
    if nf == 6 {
        proof {
            assert(fields@[5]@ == fields_of(fen@)[5]);
        }
        if !fullmove_ok(fields[5].as_str()) {
            return false;
        }
    }
    true
}

} // verus!
