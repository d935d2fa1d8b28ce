//! Positions as FEN text: reading, checking and writing.
//!
//! A text is checked in full before a position is built from it: six fields,
//! eight ranks of eight squares, a side to move, castling letters, an
//! en-passant square that agrees with the side to move, and two counters
//! that are not negative. A text that fails the check gives no position, and
//! the board that was to be set up stays as it was. What the check does not
//! look at is whether the castling rights and the en-passant square agree
//! with the pieces: `bien_formado` tells that of a board.

use vstd::prelude::*;
use crate::defs::{
    file_of, on_board, rank_of, BLACK_TO_MOVE, B_BISHOP, B_KING, B_KNIGHT, B_PAWN, B_QUEEN,
    B_ROOK, WHITE_TO_MOVE, W_BISHOP, W_KING, W_KNIGHT, W_PAWN, W_QUEEN, W_ROOK,
};
use crate::tablero::{Posicion, Tablero};
use crate::texto::{
    a_caracteres, campos, decimal, digit_value, fields, is_digit, lee_entero, number_value,
    parse_i16, partes, parts, pon_entero, DIGITS,
};

verus! {

/// The file letters, file a first.
pub const FILES: [char; 8] = ['a', 'b', 'c', 'd', 'e', 'f', 'g', 'h'];

/// The piece that a letter names, 0 for a letter that names none: upper
/// case for white, lower case for black.
pub open spec fn letter_piece(c: char) -> int {
    if c == 'K' {
        W_KING as int
    } else if c == 'Q' {
        W_QUEEN as int
    } else if c == 'R' {
        W_ROOK as int
    } else if c == 'B' {
        W_BISHOP as int
    } else if c == 'N' {
        W_KNIGHT as int
    } else if c == 'P' {
        W_PAWN as int
    } else if c == 'k' {
        B_KING as int
    } else if c == 'q' {
        B_QUEEN as int
    } else if c == 'r' {
        B_ROOK as int
    } else if c == 'b' {
        B_BISHOP as int
    } else if c == 'n' {
        B_KNIGHT as int
    } else if c == 'p' {
        B_PAWN as int
    } else {
        0
    }
}

/// The letter of a piece, and `-` for an empty square.
pub open spec fn piece_letter(piece: int) -> char {
    if piece == W_KING {
        'K'
    } else if piece == W_QUEEN {
        'Q'
    } else if piece == W_ROOK {
        'R'
    } else if piece == W_BISHOP {
        'B'
    } else if piece == W_KNIGHT {
        'N'
    } else if piece == W_PAWN {
        'P'
    } else if piece == B_KING {
        'k'
    } else if piece == B_QUEEN {
        'q'
    } else if piece == B_ROOK {
        'r'
    } else if piece == B_BISHOP {
        'b'
    } else if piece == B_KNIGHT {
        'n'
    } else if piece == B_PAWN {
        'p'
    } else {
        '-'
    }
}

/// The piece that a letter names, 0 for none.
pub fn pieza_de_letra(c: char) -> (piece: i16)
    ensures
        piece == letter_piece(c),
{
    if c == 'K' {
        W_KING
    } else if c == 'Q' {
        W_QUEEN
    } else if c == 'R' {
        W_ROOK
    } else if c == 'B' {
        W_BISHOP
    } else if c == 'N' {
        W_KNIGHT
    } else if c == 'P' {
        W_PAWN
    } else if c == 'k' {
        B_KING
    } else if c == 'q' {
        B_QUEEN
    } else if c == 'r' {
        B_ROOK
    } else if c == 'b' {
        B_BISHOP
    } else if c == 'n' {
        B_KNIGHT
    } else if c == 'p' {
        B_PAWN
    } else {
        0
    }
}

/// The letter of a piece, `-` for an empty square.
pub fn letra_de_pieza(piece: i16) -> (c: char)
    ensures
        c == piece_letter(piece as int),
{
    if piece == W_KING {
        'K'
    } else if piece == W_QUEEN {
        'Q'
    } else if piece == W_ROOK {
        'R'
    } else if piece == W_BISHOP {
        'B'
    } else if piece == W_KNIGHT {
        'N'
    } else if piece == W_PAWN {
        'P'
    } else if piece == B_KING {
        'k'
    } else if piece == B_QUEEN {
        'q'
    } else if piece == B_ROOK {
        'r'
    } else if piece == B_BISHOP {
        'b'
    } else if piece == B_KNIGHT {
        'n'
    } else if piece == B_PAWN {
        'p'
    } else {
        '-'
    }
}

/// The squares that one character of a rank's text stands for: a digit for
/// that many empty squares, a letter for its piece.
pub open spec fn char_codes(c: char) -> Seq<i16> {
    if is_digit(c) {
        Seq::new(digit_value(c) as nat, |i: int| 0i16)
    } else {
        seq![letter_piece(c) as i16]
    }
}

/// The squares that the text of a rank stands for, file a first.
pub open spec fn row_codes(row: Seq<char>) -> Seq<i16>
    decreases row.len(),
{
    if row.len() == 0 {
        Seq::empty()
    } else {
        row_codes(row.drop_last()) + char_codes(row.last())
    }
}

/// Place `i` of a rank's text holds a piece letter, or a digit that does not
/// follow another digit.
pub open spec fn row_char_ok(row: Seq<char>, i: int) -> bool {
    if is_digit(row[i]) {
        i == 0 || !is_digit(row[i - 1])
    } else {
        letter_piece(row[i]) != 0
    }
}

/// The text of a rank is made of piece letters and single digits and
/// stands for eight squares.
pub open spec fn row_ok(row: Seq<char>) -> bool {
    &&& forall|i: int| 0 <= i < row.len() ==> #[trigger] row_char_ok(row, i)
    &&& row_codes(row).len() == 8
}

/// The placement field holds eight ranks, each of them in order.
pub open spec fn placement_ok(f: Seq<char>) -> bool {
    let rows = parts(f, '/');
    &&& rows.len() == 8
    &&& forall|r: int| 0 <= r < 8 ==> row_ok(#[trigger] rows[r])
}

/// The board that eight ranks of text stand for, the eighth rank first.
pub open spec fn placement_squares(rows: Seq<Seq<char>>) -> Seq<i16> {
    Seq::new(
        128,
        |sq: int|
            if on_board(sq) {
                row_codes(rows[7 - rank_of(sq)])[file_of(sq)]
            } else {
                0i16
            },
    )
}

/// The castling field is `-` or made of the letters K, Q, k and q.
pub open spec fn castle_field_ok(f: Seq<char>) -> bool {
    f =~= seq!['-'] || (f.len() > 0 && forall|i: int|
        0 <= i < f.len() ==> (#[trigger] f[i] == 'K' || f[i] == 'Q' || f[i] == 'k' || f[i]
            == 'q'))
}

/// The rights that the castling field gives the side whose letters are
/// `short` and `long`.
pub open spec fn castle_rights(f: Seq<char>, short: char, long: char) -> int {
    (if f.contains(short) {
        1int
    } else {
        0int
    }) + (if f.contains(long) {
        2int
    } else {
        0int
    })
}

/// The en-passant field is `-` or a square of the third or sixth rank.
pub open spec fn passing_field_ok(f: Seq<char>) -> bool {
    f =~= seq!['-'] || (f.len() == 2 && 'a' <= f[0] <= 'h' && (f[1] == '3' || f[1] == '6'))
}

/// The square that the en-passant field names, -1 for `-`.
pub open spec fn passing_square(f: Seq<char>) -> int {
    if f =~= seq!['-'] {
        -1
    } else {
        (f[0] as int - 'a' as int) + 16 * (f[1] as int - '1' as int)
    }
}

/// A counter field holds a number that is not negative.
pub open spec fn counter_ok(f: Seq<char>) -> bool {
    parse_i16(f) is Ok && number_value(f) >= 0
}

/// What is wrong with a FEN text.
#[derive(Clone, Copy, Debug, PartialEq, Eq)]
pub enum ErrorFen {
    /// It does not have six fields.
    Campos,
    /// The move number is no number, or negative.
    Jugadas,
    /// The halfmove clock is no number, or negative.
    Medias,
    /// The en-passant field is neither `-` nor a square of rank 3 or 6.
    AlPaso,
    /// The castling field is neither `-` nor made of K, Q, k, q.
    Enroque,
    /// The side to move is neither `w` nor `b`.
    Turno,
    /// The placement is not eight ranks of eight squares.
    Piezas,
    /// The en-passant square lies on the side of the board of the side that
    /// is to move.
    Incoherente,
}

/// The first fault of a FEN text, in the order in which its fields are
/// checked, or none.
pub open spec fn fen_error(s: Seq<char>) -> Option<ErrorFen> {
    let f = fields(s);
    if f.len() != 6 {
        Some(ErrorFen::Campos)
    } else if !counter_ok(f[5]) {
        Some(ErrorFen::Jugadas)
    } else if !counter_ok(f[4]) {
        Some(ErrorFen::Medias)
    } else if !passing_field_ok(f[3]) {
        Some(ErrorFen::AlPaso)
    } else if !castle_field_ok(f[2]) {
        Some(ErrorFen::Enroque)
    } else if !(f[1] =~= seq!['w'] || f[1] =~= seq!['b']) {
        Some(ErrorFen::Turno)
    } else if !placement_ok(f[0]) {
        Some(ErrorFen::Piezas)
    } else if f[3].len() == 2 && ((f[3][1] == '3' && f[1] =~= seq!['w']) || (f[3][1] == '6'
        && f[1] =~= seq!['b'])) {
        Some(ErrorFen::Incoherente)
    } else {
        None
    }
}

/// Whether a text is a FEN in order.
pub open spec fn fen_valida(s: Seq<char>) -> bool {
    fen_error(s) is None
}

/// The position that a FEN text describes.
pub open spec fn posicion_fen(s: Seq<char>) -> Posicion {
    let f = fields(s);
    Posicion {
        squares: placement_squares(parts(f[0], '/')),
        to_move: if f[1] =~= seq!['w'] {
            1
        } else {
            -1
        },
        en_passant: passing_square(f[3]),
        white_castle: castle_rights(f[2], 'K', 'Q'),
        black_castle: castle_rights(f[2], 'k', 'q'),
        moves_fifty: number_value(f[4]),
        moves_full: number_value(f[5]),
    }
}

proof fn lemma_row_codes_range(row: Seq<char>)
    ensures
        forall|i: int| 0 <= i < row_codes(row).len() ==> -6 <= #[trigger] row_codes(row)[i] <= 6,
    decreases row.len(),
{
    if row.len() > 0 {
        lemma_row_codes_range(row.drop_last());
        let a = row_codes(row.drop_last());
        let b = char_codes(row.last());
        assert forall|i: int| 0 <= i < row_codes(row).len() implies -6 <= #[trigger] row_codes(
            row,
        )[i] <= 6 by {
            if i < a.len() {
                assert(row_codes(row)[i] == a[i]);
            } else {
                assert(row_codes(row)[i] == b[i - a.len()]);
            }
        }
    }
}

/// The position of a FEN in order is sound.
pub proof fn lemma_fen_sound(s: Seq<char>)
    requires
        fen_valida(s),
    ensures
        posicion_fen(s).sound(),
        posicion_fen(s).moves_fifty >= 0,
        posicion_fen(s).moves_full >= 0,
{
    let f = fields(s);
    let rows = parts(f[0], '/');
    let p = posicion_fen(s);
    assert forall|sq: int| 0 <= sq < 128 implies -6 <= #[trigger] p.squares[sq] <= 6 && (!on_board(
        sq,
    ) ==> p.squares[sq] == 0) by {
        if on_board(sq) {
            assert(row_ok(rows[7 - rank_of(sq)]));
            lemma_row_codes_range(rows[7 - rank_of(sq)]);
        }
    }
}

/// Reads the text of one rank: its eight squares, or nothing where the text
/// is not in order.
fn lee_fila(row: &Vec<char>) -> (r: Option<Vec<i16>>)
    ensures
        r is Some <==> row_ok(row@),
        r is Some ==> r->0@ == row_codes(row@),
{
    let mut codes: Vec<i16> = Vec::new();
    let mut previo_numero = false;
    let mut i: usize = 0;
    let n = row.len();
    assert(row@.take(0) =~= Seq::<char>::empty());
    while i < n
        invariant
            0 <= i <= n,
            n == row@.len(),
            codes@ == row_codes(row@.take(i as int)),
            codes@.len() <= 8,
            forall|j: int| 0 <= j < i ==> #[trigger] row_char_ok(row@, j),
            previo_numero == (i > 0 && is_digit(row@[i - 1])),
        decreases n - i,
    {
        let c = row[i];
        let ghost antes = row@.take(i as int);
        let ghost ahora = row@.take(i + 1);
        proof {
            assert(ahora.drop_last() =~= antes);
            assert(ahora.last() == c);
        }
        if c >= '0' && c <= '9' {
            if previo_numero {
                assert(!row_char_ok(row@, i as int));
                return None;
            }
            let d: usize = (c as u32 - '0' as u32) as usize;
            if codes.len() + d > 8 {
                proof {
                    lemma_row_codes_grow(row@, i + 1);
                }
                return None;
            }
            let mut k: usize = 0;
            while k < d
                invariant
                    0 <= k <= d,
                    d == digit_value(c),
                    codes@ == row_codes(antes) + Seq::new(k as nat, |i: int| 0i16),
                    codes@.len() + (d - k) <= 8,
                decreases d - k,
            {
                codes.push(0);
                k += 1;
                assert(codes@ =~= row_codes(antes) + Seq::new(k as nat, |i: int| 0i16));
            }
            previo_numero = true;
        } else {
            let piece = pieza_de_letra(c);
            if piece == 0 {
                assert(!row_char_ok(row@, i as int));
                return None;
            }
            if codes.len() >= 8 {
                proof {
                    lemma_row_codes_grow(row@, i + 1);
                }
                return None;
            }
            codes.push(piece);
            previo_numero = false;
        }
        i += 1;
    }
    assert(row@.take(n as int) =~= row@);
    if codes.len() == 8 {
        Some(codes)
    } else {
        None
    }
}

/// A rank's text stands for at least as many squares as any of its
/// beginnings.
proof fn lemma_row_codes_grow(row: Seq<char>, i: int)
    requires
        0 <= i <= row.len(),
    ensures
        row_codes(row.take(i)).len() <= row_codes(row).len(),
    decreases row.len() - i,
{
    if i < row.len() {
        lemma_row_codes_grow(row, i + 1);
        assert(row.take(i + 1).drop_last() =~= row.take(i));
    } else {
        assert(row.take(i) =~= row);
    }
}

/// Reads a counter field.
fn lee_contador(f: &Vec<char>) -> (r: Option<i16>)
    ensures
        r is Some <==> counter_ok(f@),
        r is Some ==> r->0 == number_value(f@),
{
    match lee_entero(f) {
        Ok(n) => if n < 0 {
            None
        } else {
            Some(n)
        },
        Err(_) => None,
    }
}

/// Whether `c` stands in `f`.
fn contiene(f: &Vec<char>, c: char) -> (b: bool)
    ensures
        b == f@.contains(c),
{
    let mut i: usize = 0;
    while i < f.len()
        invariant
            0 <= i <= f.len(),
            forall|j: int| 0 <= j < i ==> f@[j] != c,
        decreases f.len() - i,
    {
        if f[i] == c {
            return true;
        }
        i += 1;
    }
    false
}

/// Whether the castling field is in order.
fn enroque_en_orden(f: &Vec<char>) -> (b: bool)
    ensures
        b == castle_field_ok(f@),
{
    if f.len() == 1 && f[0] == '-' {
        return true;
    }
    if f.len() == 0 {
        return false;
    }
    let mut i: usize = 0;
    while i < f.len()
        invariant
            0 <= i <= f.len(),
            f.len() > 0,
            !(f@ =~= seq!['-']),
            forall|j: int|
                0 <= j < i ==> (#[trigger] f@[j] == 'K' || f@[j] == 'Q' || f@[j] == 'k' || f@[j]
                    == 'q'),
        decreases f.len() - i,
    {
        let c = f[i];
        if !(c == 'K' || c == 'Q' || c == 'k' || c == 'q') {
            return false;
        }
        i += 1;
    }
    true
}

/// Reads the en-passant field: the square, -1 for `-`, or nothing where the
/// field is not in order.
fn lee_al_paso(f: &Vec<char>) -> (r: Option<i16>)
    ensures
        r is Some <==> passing_field_ok(f@),
        r is Some ==> r->0 == passing_square(f@),
{
    if f.len() == 1 && f[0] == '-' {
        return Some(-1);
    }
    if f.len() == 2 && f[0] >= 'a' && f[0] <= 'h' && (f[1] == '3' || f[1] == '6') {
        let columna: i16 = (f[0] as u32 - 'a' as u32) as i16;
        let fila: i16 = (f[1] as u32 - '1' as u32) as i16;
        return Some(columna + 16 * fila);
    }
    None
}

/// Reads a position from a FEN text. The text is checked first; what comes
/// back is the position it describes, with an empty log, or its first
/// fault.
#[verifier::loop_isolation(false)]
pub fn carga_fen(fen: &str) -> (r: Result<Tablero, ErrorFen>)
    ensures
        match r {
            Ok(t) => fen_error(fen@) is None && t@ == posicion_fen(fen@) && t.history@.len() == 0,
            Err(e) => fen_error(fen@) == Some(e),
        },
{
    let texto = a_caracteres(fen);
    let f = campos(&texto);
    if f.len() != 6 {
        return Err(ErrorFen::Campos);
    }
    let todas = match lee_contador(&f[5]) {
        Some(n) => n,
        None => {
            return Err(ErrorFen::Jugadas);
        },
    };
    let medias = match lee_contador(&f[4]) {
        Some(n) => n,
        None => {
            return Err(ErrorFen::Medias);
        },
    };
    let paso = match lee_al_paso(&f[3]) {
        Some(sq) => sq,
        None => {
            return Err(ErrorFen::AlPaso);
        },
    };
    if !enroque_en_orden(&f[2]) {
        return Err(ErrorFen::Enroque);
    }
    let blanco = f[1].len() == 1 && f[1][0] == 'w';
    let negro = f[1].len() == 1 && f[1][0] == 'b';
    assert(blanco == (f@[1]@ =~= seq!['w']));
    assert(negro == (f@[1]@ =~= seq!['b']));
    if !blanco && !negro {
        return Err(ErrorFen::Turno);
    }
    let filas = partes(&f[0], '/');
    if filas.len() != 8 {
        return Err(ErrorFen::Piezas);
    }
    let mut t = Tablero::init();
    let ghost rows = parts(f@[0]@, '/');
    let mut r: usize = 0;
    while r < 8
        invariant
            0 <= r <= 8,
            filas@.len() == 8,
            rows == parts(f@[0]@, '/'),
            rows.len() == 8,
            forall|k: int| 0 <= k < 8 ==> (#[trigger] filas@[k])@ == rows[k],
            forall|k: int| 0 <= k < r ==> row_ok(#[trigger] rows[k]),
            forall|sq: int|
                0 <= sq < 128 ==> #[trigger] t.board_array@[sq] == (if on_board(sq) && 7 - rank_of(
                    sq,
                ) < r {
                    placement_squares(rows)[sq]
                } else {
                    0i16
                }),
            t.history@.len() == 0,
        decreases 8 - r,
    {
        let codes = match lee_fila(&filas[r]) {
            Some(codes) => codes,
            None => {
                assert(!row_ok(rows[r as int]));
                return Err(ErrorFen::Piezas);
            },
        };
        let base: usize = 16 * (7 - r);
        let mut c: usize = 0;
        while c < 8
            invariant
                0 <= c <= 8,
                0 <= r < 8,
                base == 16 * (7 - r),
                codes@ == row_codes(rows[r as int]),
                codes@.len() == 8,
                rows.len() == 8,
                forall|sq: int|
                    0 <= sq < 128 ==> #[trigger] t.board_array@[sq] == (if on_board(sq) && (7
                        - rank_of(sq) < r || (7 - rank_of(sq) == r && file_of(sq) < c)) {
                        placement_squares(rows)[sq]
                    } else {
                        0i16
                    }),
                t.history@.len() == 0,
            decreases 8 - c,
        {
            t.board_array[base + c] = codes[c];
            c += 1;
        }
        r += 1;
    }
    assert(t.board_array@ =~= placement_squares(rows));
    if f[3].len() == 2 && ((f[3][1] == '3' && blanco) || (f[3][1] == '6' && negro)) {
        return Err(ErrorFen::Incoherente);
    }
    t.to_move = if blanco {
        WHITE_TO_MOVE
    } else {
        BLACK_TO_MOVE
    };
    t.en_passant = paso;
    t.white_castle = (if contiene(&f[2], 'K') {
        1i16
    } else {
        0i16
    }) + (if contiene(&f[2], 'Q') {
        2i16
    } else {
        0i16
    });
    t.black_castle = (if contiene(&f[2], 'k') {
        1i16
    } else {
        0i16
    }) + (if contiene(&f[2], 'q') {
        2i16
    } else {
        0i16
    });
    t.moves_fifty = medias;
    t.moves_full = todas;
    Ok(t)
}

/// Sets the board up from a FEN text. A text that is not in order leaves
/// the board as it is.
pub fn set_fen(fen: &str, board: &mut Tablero) -> (ok: bool)
    ensures
        ok == fen_valida(fen@),
        ok ==> final(board)@ == posicion_fen(fen@),
        ok ==> final(board).history@.len() == 0,
        ok ==> final(board)@.sound(),
        !ok ==> *final(board) == *old(board),
{
    match carga_fen(fen) {
        Ok(t) => {
            proof {
                lemma_fen_sound(fen@);
            }
            *board = t;
            true
        },
        Err(_) => false,
    }
}

/// Whether a text is a FEN in order.
pub fn valida_fen(fen: &str) -> (ok: bool)
    ensures
        ok == fen_valida(fen@),
{
    carga_fen(fen).is_ok()
}

/// The digit for a run of empty squares, nothing for no run.
pub open spec fn run_text(empties: int) -> Seq<char> {
    if empties > 0 {
        seq![DIGITS@[empties]]
    } else {
        Seq::empty()
    }
}

/// The text of rank `rank` from file `file` on, after `empties` empty
/// squares that are not written yet: a letter for each piece, a digit for
/// each run of empty squares.
pub open spec fn row_text(sq: Seq<i16>, rank: int, file: int, empties: int) -> Seq<char>
    decreases 8 - file,
{
    if file < 0 || file >= 8 {
        run_text(empties)
    } else if sq[16 * rank + file] == 0 {
        row_text(sq, rank, file + 1, empties + 1)
    } else {
        run_text(empties) + seq![piece_letter(sq[16 * rank + file] as int)] + row_text(
            sq,
            rank,
            file + 1,
            0,
        )
    }
}

/// The text of the ranks from `rank` down to the first, with `/` between
/// them.
pub open spec fn ranks_text(sq: Seq<i16>, rank: int) -> Seq<char>
    decreases rank,
{
    if rank <= 0 {
        row_text(sq, 0, 0, 0)
    } else {
        row_text(sq, rank, 0, 0) + seq!['/'] + ranks_text(sq, rank - 1)
    }
}

/// The castling letters of one side.
pub open spec fn side_castle_text(rights: int, short: char, long: char) -> Seq<char> {
    if rights == 1 {
        seq![short]
    } else if rights == 2 {
        seq![long]
    } else if rights == 3 {
        seq![short, long]
    } else {
        Seq::empty()
    }
}

/// The castling field: `-` where neither side has a right.
pub open spec fn castle_text(white: int, black: int) -> Seq<char> {
    if white == 0 && black == 0 {
        seq!['-']
    } else {
        side_castle_text(white, 'K', 'Q') + side_castle_text(black, 'k', 'q')
    }
}

/// The name of a square: its file letter and its rank digit.
pub open spec fn square_name(sq: int) -> Seq<char> {
    seq![FILES@[file_of(sq)], DIGITS@[rank_of(sq) + 1]]
}

/// The en-passant field: `-` for none.
pub open spec fn passing_text(ep: int) -> Seq<char> {
    if ep == -1 {
        seq!['-']
    } else {
        square_name(ep)
    }
}

/// The FEN of a position without its counters: placement, side to move,
/// castling rights and en-passant square.
pub open spec fn short_fen(p: Posicion) -> Seq<char> {
    ranks_text(p.squares, 7) + seq![' ', if p.to_move == 1 { 'w' } else { 'b' }, ' ']
        + castle_text(p.white_castle, p.black_castle) + seq![' '] + passing_text(p.en_passant)
}

/// The FEN of a position.
pub open spec fn fen_text(p: Posicion) -> Seq<char> {
    short_fen(p) + seq![' '] + decimal(p.moves_fifty) + seq![' '] + decimal(p.moves_full)
}

/// The en-passant square has a name: it is none or a square of the board.
pub open spec fn passing_named(p: Posicion) -> bool {
    p.en_passant == -1 || on_board(p.en_passant)
}

/// Appends the name of a square.
pub fn pon_casilla(s: &mut String, sq: i16)
    requires
        on_board(sq as int),
    ensures
        final(s)@ == old(s)@ + square_name(sq as int),
{
    s.push(FILES[(sq % 16) as usize]);
    s.push(DIGITS[(sq / 16 + 1) as usize]);
    assert(s@ =~= old(s)@ + square_name(sq as int));
}

/// Appends the text of one rank.
fn pon_fila(s: &mut String, board: &Tablero, rank: usize)
    requires
        rank < 8,
    ensures
        final(s)@ == old(s)@ + row_text(board@.squares, rank as int, 0, 0),
{
    let ghost sq = board@.squares;
    let ghost entero = row_text(sq, rank as int, 0, 0);
    let mut empties: usize = 0;
    let mut file: usize = 0;
    while file < 8
        invariant
            0 <= file <= 8,
            0 <= empties <= file,
            rank < 8,
            sq == board@.squares,
            old(s)@ + entero == s@ + row_text(sq, rank as int, file as int, empties as int),
        decreases 8 - file,
    {
        let pieza = board.board_array[16 * rank + file];
        if pieza != 0 {
            if empties != 0 {
                s.push(DIGITS[empties]);
            }
            empties = 0;
            s.push(letra_de_pieza(pieza));
        } else {
            empties += 1;
        }
        file += 1;
        assert(old(s)@ + entero =~= s@ + row_text(sq, rank as int, file as int, empties as int));
    }
    if empties != 0 {
        s.push(DIGITS[empties]);
    }
    assert(s@ =~= old(s)@ + entero);
}

/// Appends the castling letters of one side.
fn pon_enroque(s: &mut String, rights: i16, short: char, long: char)
    ensures
        final(s)@ == old(s)@ + side_castle_text(rights as int, short, long),
{
    if rights == 1 {
        s.push(short);
    } else if rights == 2 {
        s.push(long);
    } else if rights == 3 {
        s.push(short);
        s.push(long);
    }
    assert(s@ =~= old(s)@ + side_castle_text(rights as int, short, long));
}

/// Appends the placement of the pieces.
fn pon_piezas(s: &mut String, board: &Tablero)
    ensures
        final(s)@ == old(s)@ + ranks_text(board@.squares, 7),
{
    let ghost sq = board@.squares;
    let ghost entero = ranks_text(sq, 7);
    let mut rank: usize = 7;
    while rank > 0
        invariant
            0 <= rank <= 7,
            sq == board@.squares,
            s@ + ranks_text(sq, rank as int) == old(s)@ + entero,
        decreases rank,
    {
        let ghost antes = s@;
        pon_fila(s, board, rank);
        s.push('/');
        rank -= 1;
        assert(s@ + ranks_text(sq, rank as int) =~= antes + ranks_text(sq, rank + 1));
    }
    pon_fila(s, board, 0);
    assert(s@ =~= old(s)@ + entero);
}

/// Appends the castling field.
fn pon_derechos(s: &mut String, board: &Tablero)
    ensures
        final(s)@ == old(s)@ + castle_text(board@.white_castle, board@.black_castle),
{
    if board.white_castle == 0 && board.black_castle == 0 {
        s.push('-');
    } else {
        pon_enroque(s, board.white_castle, 'K', 'Q');
        pon_enroque(s, board.black_castle, 'k', 'q');
    }
    assert(s@ =~= old(s)@ + castle_text(board@.white_castle, board@.black_castle));
}

/// Appends the en-passant field.
fn pon_al_paso(s: &mut String, board: &Tablero)
    requires
        passing_named(board@),
    ensures
        final(s)@ == old(s)@ + passing_text(board@.en_passant),
{
    if board.en_passant == -1 {
        s.push('-');
    } else {
        pon_casilla(s, board.en_passant);
    }
    assert(s@ =~= old(s)@ + passing_text(board@.en_passant));
}

/// The FEN of the board without its counters. Equal positions, whatever
/// their counters, give equal texts.
pub fn fen_mutilada(board: &Tablero) -> (s: String)
    requires
        passing_named(board@),
    ensures
        s@ == short_fen(board@),
{
    let mut s = String::new();
    pon_piezas(&mut s, board);
    let ghost piezas = s@;
    s.push(' ');
    if board.to_move == 1 {
        s.push('w');
    } else {
        s.push('b');
    }
    s.push(' ');
    assert(s@ =~= piezas + seq![' ', if board@.to_move == 1 { 'w' } else { 'b' }, ' ']);
    pon_derechos(&mut s, board);
    s.push(' ');
    pon_al_paso(&mut s, board);
    s
}

/// The FEN of the board.
pub fn get_fen(board: &Tablero) -> (s: String)
    requires
        passing_named(board@),
    ensures
        s@ == fen_text(board@),
{
    let mut s = fen_mutilada(board);
    s.push(' ');
    pon_entero(&mut s, board.moves_fifty);
    s.push(' ');
    pon_entero(&mut s, board.moves_full);
    assert(s@ =~= fen_text(board@));
    s
}

} // verus!
