//! Moves as text: coordinate notation and standard algebraic notation,
//! written and read.

use vstd::prelude::*;
use crate::ataque::in_check;
use crate::defs::{
    file_of, on_board, rank_of, square_at, B_KING, B_PAWN, EN_PASSANT, LONG_CASTLE, ORDINARY_MOVE,
    PROMOTION_BISHOP, PROMOTION_KNIGHT, PROMOTION_QUEEN, PROMOTION_ROOK, SHORT_CASTLE, W_BISHOP,
    W_KING, W_KNIGHT, W_PAWN, W_QUEEN, W_ROOK,
};
use crate::estado::{checkmate, rey_en_jaque, rey_en_mate};
use crate::fen::{piece_letter, FILES};
use crate::genera::{all_fit, generate_moves, legal_moves};
use crate::jugada::move_fits;
use crate::tablero::{Movim, Posicion, Tablero};
use crate::texto::{a_caracteres, digits_of, pon_digitos, DIGITS};

verus! {

/// The text of a piece: its letter, `-` for an empty square, and nothing for
/// a code that is no piece's.
pub open spec fn piece_text(piece: int) -> Seq<char> {
    if -6 <= piece <= 6 {
        seq![piece_letter(piece)]
    } else {
        Seq::empty()
    }
}

/// The letter of a piece, upper case for white and lower case for black;
/// `-` for an empty square.
pub fn pieza_char(pieza: i16) -> (txt: &'static str)
    ensures
        txt@ == piece_text(pieza as int),
{
    proof {
        reveal_strlit("K");
        reveal_strlit("Q");
        reveal_strlit("R");
        reveal_strlit("B");
        reveal_strlit("N");
        reveal_strlit("P");
        reveal_strlit("k");
        reveal_strlit("q");
        reveal_strlit("r");
        reveal_strlit("b");
        reveal_strlit("n");
        reveal_strlit("p");
        reveal_strlit("-");
        reveal_strlit("");
    }
    let txt = if pieza == W_KING {
        "K"
    } else if pieza == W_QUEEN {
        "Q"
    } else if pieza == W_ROOK {
        "R"
    } else if pieza == W_BISHOP {
        "B"
    } else if pieza == W_KNIGHT {
        "N"
    } else if pieza == W_PAWN {
        "P"
    } else if pieza == B_KING {
        "k"
    } else if pieza == crate::defs::B_QUEEN {
        "q"
    } else if pieza == crate::defs::B_ROOK {
        "r"
    } else if pieza == crate::defs::B_BISHOP {
        "b"
    } else if pieza == crate::defs::B_KNIGHT {
        "n"
    } else if pieza == B_PAWN {
        "p"
    } else if pieza == 0 {
        "-"
    } else {
        ""
    };
    assert(txt@ =~= piece_text(pieza as int));
    txt
}

/// The letter that stands for a kind of move, nothing for a number that is
/// no kind.
pub open spec fn flag_text(kind: int) -> Seq<char> {
    if kind == ORDINARY_MOVE {
        seq!['O']
    } else if kind == SHORT_CASTLE {
        seq!['S']
    } else if kind == LONG_CASTLE {
        seq!['L']
    } else if kind == EN_PASSANT {
        seq!['E']
    } else if kind == PROMOTION_QUEEN {
        seq!['Q']
    } else if kind == PROMOTION_ROOK {
        seq!['R']
    } else if kind == PROMOTION_BISHOP {
        seq!['B']
    } else if kind == PROMOTION_KNIGHT {
        seq!['N']
    } else {
        Seq::empty()
    }
}

/// The letter of a kind of move.
pub fn crea_flags(flag: i16) -> (s: String)
    ensures
        s@ == flag_text(flag as int),
{
    let mut s = String::new();
    if flag == ORDINARY_MOVE {
        s.push('O');
    } else if flag == SHORT_CASTLE {
        s.push('S');
    } else if flag == LONG_CASTLE {
        s.push('L');
    } else if flag == EN_PASSANT {
        s.push('E');
    } else if flag == PROMOTION_QUEEN {
        s.push('Q');
    } else if flag == PROMOTION_ROOK {
        s.push('R');
    } else if flag == PROMOTION_BISHOP {
        s.push('B');
    } else if flag == PROMOTION_KNIGHT {
        s.push('N');
    }
    assert(s@ =~= flag_text(flag as int));
    s
}

/// The file letter of a square index, nothing where its file is beside the
/// board.
pub open spec fn file_text(sq: int) -> Seq<char> {
    if file_of(sq) < 8 {
        seq![FILES@[file_of(sq)]]
    } else {
        Seq::empty()
    }
}

/// The coordinates of a square index: file letter and rank digit, each of
/// them only where it lies on the board.
pub open spec fn coord_text(sq: int) -> Seq<char> {
    file_text(sq) + if rank_of(sq) < 8 {
        seq![DIGITS@[rank_of(sq) + 1]]
    } else {
        Seq::empty()
    }
}

/// The letter that a promotion adds to a move's coordinates.
pub open spec fn promo_text(kind: int) -> Seq<char> {
    if kind == PROMOTION_QUEEN {
        seq!['q']
    } else if kind == PROMOTION_ROOK {
        seq!['r']
    } else if kind == PROMOTION_BISHOP {
        seq!['b']
    } else if kind == PROMOTION_KNIGHT {
        seq!['n']
    } else {
        Seq::empty()
    }
}

/// A move in coordinate notation: origin, destination, and the letter of
/// the piece a pawn is promoted to.
pub open spec fn uci_text(m: Movim) -> Seq<char> {
    coord_text(m.from_index as int) + coord_text(m.to_index as int) + promo_text(
        m.move_type as int,
    )
}

/// Appends the file letter of a square index.
fn pon_columna(s: &mut String, sq: usize)
    ensures
        final(s)@ == old(s)@ + file_text(sq as int),
{
    if sq % 16 < 8 {
        s.push(FILES[sq % 16]);
    }
    assert(s@ =~= old(s)@ + file_text(sq as int));
}

/// Appends the coordinates of a square index.
fn pon_coordenadas(s: &mut String, sq: usize)
    ensures
        final(s)@ == old(s)@ + coord_text(sq as int),
{
    pon_columna(s, sq);
    if sq / 16 < 8 {
        s.push(DIGITS[sq / 16 + 1]);
    }
    assert(s@ =~= old(s)@ + coord_text(sq as int));
}

/// The move in coordinate notation.
pub fn crea_uci(movim: Movim) -> (uci: String)
    ensures
        uci@ == uci_text(movim),
{
    let mut uci = String::new();
    pon_coordenadas(&mut uci, movim.from_index);
    pon_coordenadas(&mut uci, movim.to_index);
    if movim.move_type == PROMOTION_QUEEN {
        uci.push('q');
    } else if movim.move_type == PROMOTION_ROOK {
        uci.push('r');
    } else if movim.move_type == PROMOTION_BISHOP {
        uci.push('b');
    } else if movim.move_type == PROMOTION_KNIGHT {
        uci.push('n');
    }
    assert(uci@ =~= uci_text(movim));
    uci
}

/// The letter that names a piece in algebraic notation: none for a pawn.
pub open spec fn san_piece(piece: int) -> Seq<char> {
    if piece == W_KING || piece == B_KING {
        seq!['K']
    } else if piece == W_QUEEN || piece == -W_QUEEN {
        seq!['Q']
    } else if piece == W_ROOK || piece == -W_ROOK {
        seq!['R']
    } else if piece == W_BISHOP || piece == -W_BISHOP {
        seq!['B']
    } else if piece == W_KNIGHT || piece == -W_KNIGHT {
        seq!['N']
    } else {
        Seq::empty()
    }
}

/// The capture mark: `x`, after the file of origin for a pawn.
pub open spec fn san_capture(m: Movim) -> Seq<char> {
    if m.capture == 0 {
        Seq::empty()
    } else if m.piece_moving == W_PAWN || m.piece_moving == B_PAWN {
        file_text(m.from_index as int).push('x')
    } else {
        seq!['x']
    }
}

/// What a move's kind adds after its destination.
pub open spec fn san_kind(kind: int) -> Seq<char> {
    if kind == EN_PASSANT {
        seq![' ', 'e', '.', 'p', '.']
    } else if kind == PROMOTION_QUEEN {
        seq!['=', 'Q']
    } else if kind == PROMOTION_ROOK {
        seq!['=', 'R']
    } else if kind == PROMOTION_BISHOP {
        seq!['=', 'B']
    } else if kind == PROMOTION_KNIGHT {
        seq!['=', 'N']
    } else {
        Seq::empty()
    }
}

/// The mark of what the move did to the other king: `#` for mate, `+` for
/// check, in the position after the move.
pub open spec fn san_check(after: Posicion) -> Seq<char> {
    if checkmate(after) {
        seq!['#']
    } else if in_check(after) {
        seq!['+']
    } else {
        Seq::empty()
    }
}

/// Whether `m` is written as a castle: a king's move of a castling kind.
pub open spec fn written_as_castle(m: Movim) -> bool {
    (m.piece_moving == W_KING || m.piece_moving == B_KING) && (m.move_type == SHORT_CASTLE
        || m.move_type == LONG_CASTLE)
}

/// Move `m` in standard algebraic notation, where `after` is the position
/// that it led to: `O-O` or `O-O-O` for a castle; else the piece's letter,
/// the capture mark, the destination, what the kind adds, and the mark for
/// check or mate. No origin is written but a capturing pawn's file.
pub open spec fn san_text(after: Posicion, m: Movim) -> Seq<char> {
    if written_as_castle(m) {
        if m.move_type == SHORT_CASTLE {
            seq!['O', '-', 'O']
        } else {
            seq!['O', '-', 'O', '-', 'O']
        }
    } else {
        san_piece(m.piece_moving as int) + san_capture(m) + file_text(m.to_index as int)
            + digits_of(rank_of(m.to_index as int) + 1) + san_kind(m.move_type as int)
            + san_check(after)
    }
}

/// Appends the letter that names a piece.
fn pon_pieza(san: &mut String, pieza: i16)
    ensures
        final(san)@ == old(san)@ + san_piece(pieza as int),
{
    if pieza == W_KING || pieza == B_KING {
        san.push('K');
    } else if pieza == W_QUEEN || pieza == -W_QUEEN {
        san.push('Q');
    } else if pieza == W_ROOK || pieza == -W_ROOK {
        san.push('R');
    } else if pieza == W_BISHOP || pieza == -W_BISHOP {
        san.push('B');
    } else if pieza == W_KNIGHT || pieza == -W_KNIGHT {
        san.push('N');
    }
    assert(san@ =~= old(san)@ + san_piece(pieza as int));
}

/// Appends the capture mark of a move.
fn pon_captura(san: &mut String, movim: Movim)
    ensures
        final(san)@ == old(san)@ + san_capture(movim),
{
    if movim.capture != 0 {
        if movim.piece_moving == W_PAWN || movim.piece_moving == B_PAWN {
            pon_columna(san, movim.from_index);
        }
        san.push('x');
    }
    assert(san@ =~= old(san)@ + san_capture(movim));
}

/// Appends what a move's kind adds.
fn pon_tipo(san: &mut String, tipo: i16)
    ensures
        final(san)@ == old(san)@ + san_kind(tipo as int),
{
    if tipo == EN_PASSANT {
        san.push(' ');
        san.push('e');
        san.push('.');
        san.push('p');
        san.push('.');
    } else if tipo == PROMOTION_QUEEN {
        san.push('=');
        san.push('Q');
    } else if tipo == PROMOTION_ROOK {
        san.push('=');
        san.push('R');
    } else if tipo == PROMOTION_BISHOP {
        san.push('=');
        san.push('B');
    } else if tipo == PROMOTION_KNIGHT {
        san.push('=');
        san.push('N');
    }
    assert(san@ =~= old(san)@ + san_kind(tipo as int));
}

/// Appends the mark for check or mate on the board.
fn pon_jaque(san: &mut String, board: &mut Tablero)
    requires
        old(board)@.wf(),
    ensures
        final(san)@ == old(san)@ + san_check(old(board)@),
        final(board)@ == old(board)@,
        final(board).history == old(board).history,
{
    if rey_en_mate(board) {
        san.push('#');
    } else if rey_en_jaque(board) {
        san.push('+');
    }
    assert(san@ =~= old(san)@ + san_check(old(board)@));
}

/// The move in standard algebraic notation. The board is the one after the
/// move, on which check and mate are looked for.
pub fn crea_san(board: &mut Tablero, movim: Movim) -> (san: String)
    requires
        old(board)@.wf(),
    ensures
        san@ == san_text(old(board)@, movim),
        final(board)@ == old(board)@,
        final(board).history == old(board).history,
{
    let mut san = String::new();
    let pieza = movim.piece_moving;
    if (pieza == W_KING || pieza == B_KING) && movim.move_type == SHORT_CASTLE {
        san.push('O');
        san.push('-');
        san.push('O');
        assert(san@ =~= san_text(board@, movim));
        return san;
    }
    if (pieza == W_KING || pieza == B_KING) && movim.move_type == LONG_CASTLE {
        san.push('O');
        san.push('-');
        san.push('O');
        san.push('-');
        san.push('O');
        assert(san@ =~= san_text(board@, movim));
        return san;
    }
    pon_pieza(&mut san, pieza);
    pon_captura(&mut san, movim);
    pon_columna(&mut san, movim.to_index);
    pon_digitos(&mut san, (movim.to_index / 16 + 1) as u64);
    pon_tipo(&mut san, movim.move_type);
    pon_jaque(&mut san, board);
    assert(san@ =~= san_text(board@, movim));
    san
}

/// Whether the text is the name of a square: a file letter and a rank
/// digit.
pub open spec fn is_square_name(s: Seq<char>) -> bool {
    s.len() == 2 && is_file(s[0]) && is_rank(s[1])
}

/// A file letter.
pub open spec fn is_file(c: char) -> bool {
    'a' <= c <= 'h'
}

/// A rank digit.
pub open spec fn is_rank(c: char) -> bool {
    '1' <= c <= '8'
}

/// The square on the file of letter `f` and the rank of digit `r`.
pub open spec fn square_of(f: char, r: char) -> int {
    square_at(f as int - 'a' as int, r as int - '1' as int)
}

/// The square on the file of letter `f` and the rank of digit `r`.
pub fn casilla_de(f: char, r: char) -> (sq: i16)
    requires
        is_file(f),
        is_rank(r),
    ensures
        sq == square_of(f, r),
        on_board(sq as int),
{
    let columna: i16 = (f as u32 - 'a' as u32) as i16;
    let fila: i16 = (r as u32 - '1' as u32) as i16;
    16 * fila + columna
}

/// The square that a text names, if it names one.
pub fn casilla_de_nombre(nombre: &Vec<char>) -> (r: Option<i16>)
    ensures
        r is Some <==> is_square_name(nombre@),
        r is Some ==> r->0 == square_of(nombre@[0], nombre@[1]),
        r is Some ==> on_board(r->0 as int),
{
    if nombre.len() == 2 && nombre[0] >= 'a' && nombre[0] <= 'h' && nombre[1] >= '1'
        && nombre[1] <= '8' {
        Some(casilla_de(nombre[0], nombre[1]))
    } else {
        None
    }
}

/// The kind of promotion asked for with a move to `to`, 256 for none: a
/// letter counts only for a move to the first or last rank.
pub open spec fn wanted_promotion(to: int, promo: Seq<char>) -> int {
    if rank_of(to) != 0 && rank_of(to) != 7 {
        256
    } else if promo =~= seq!['Q'] {
        PROMOTION_QUEEN as int
    } else if promo =~= seq!['R'] {
        PROMOTION_ROOK as int
    } else if promo =~= seq!['B'] {
        PROMOTION_BISHOP as int
    } else if promo =~= seq!['N'] {
        PROMOTION_KNIGHT as int
    } else {
        256
    }
}

/// Whether move `m` goes from `from` to `to` as asked: a pawn's move for
/// which a promotion is asked must be that promotion, and any other move
/// must be none.
pub open spec fn algebra_match(m: Movim, from: int, to: int, want: int) -> bool {
    &&& m.from_index == from
    &&& m.to_index == to
    &&& if want != 256 && (m.piece_moving == W_PAWN || m.piece_moving == B_PAWN) {
        m.move_type == want
    } else {
        m.move_type < PROMOTION_QUEEN
    }
}

/// The legal move from square `desde` to square `hasta`, with the promotion
/// that `promo` asks for: the only one there is, or the move that stands for
/// "no move".
pub open spec fn algebra_move(p: Posicion, desde: Seq<char>, hasta: Seq<char>, promo: Seq<char>)
    -> Movim {
    if !is_square_name(desde) || !is_square_name(hasta) {
        Movim::nulo()
    } else {
        let from = square_of(desde[0], desde[1]);
        let to = square_of(hasta[0], hasta[1]);
        let found = legal_moves(p).filter(
            |m: Movim| algebra_match(m, from, to, wanted_promotion(to, promo)),
        );
        if found.len() == 1 {
            found[0]
        } else {
            Movim::nulo()
        }
    }
}

/// The kind of promotion that a letter asks for with a move to `to`.
fn coronacion(to: i16, promo: &Vec<char>) -> (c: i16)
    requires
        on_board(to as int),
    ensures
        c == wanted_promotion(to as int, promo@),
{
    if to / 16 != 0 && to / 16 != 7 {
        return 256;
    }
    if promo.len() != 1 {
        return 256;
    }
    let c = promo[0];
    if c == 'Q' {
        PROMOTION_QUEEN
    } else if c == 'R' {
        PROMOTION_ROOK
    } else if c == 'B' {
        PROMOTION_BISHOP
    } else if c == 'N' {
        PROMOTION_KNIGHT
    } else {
        256
    }
}

/// Finds the legal move between two squares given by name, with the
/// promotion asked for.
pub fn crea_algebra(board: &mut Tablero, jugada: (&str, &str, &str)) -> (m: Movim)
    requires
        old(board)@.wf(),
    ensures
        m == algebra_move(old(board)@, jugada.0@, jugada.1@, jugada.2@),
        m.piece_moving != 0 ==> move_fits(old(board)@, m),
        final(board)@ == old(board)@,
        final(board).history == old(board).history,
{
    let desde = a_caracteres(jugada.0);
    let hasta = a_caracteres(jugada.1);
    let promo = a_caracteres(jugada.2);
    let idx_desde = match casilla_de_nombre(&desde) {
        Some(sq) => sq,
        None => {
            return Movim::ninguno();
        },
    };
    let idx_hasta = match casilla_de_nombre(&hasta) {
        Some(sq) => sq,
        None => {
            return Movim::ninguno();
        },
    };
    let quiere = coronacion(idx_hasta, &promo);
    let ghost p = board@;
    let ghost pred = |m: Movim| algebra_match(m, idx_desde as int, idx_hasta as int, quiere as int);
    let legales = generate_moves(board);
    let mut candidatas: Vec<Movim> = Vec::new();
    let mut i: usize = 0;
    assert(legales@.take(0).filter(pred) =~= Seq::<Movim>::empty());
    while i < legales.len()
        invariant
            0 <= i <= legales.len(),
            pred == (|m: Movim|
                algebra_match(m, idx_desde as int, idx_hasta as int, quiere as int)),
            candidatas@ == legales@.take(i as int).filter(pred),
            on_board(idx_desde as int),
            on_board(idx_hasta as int),
            all_fit(p, legales@, 0),
            all_fit(p, candidatas@, 0),
        decreases legales.len() - i,
    {
        let legal = legales[i];
        proof {
            assert(legales@.take(i + 1) =~= legales@.take(i as int).push(legal));
            legales@.take(i as int).lemma_filter_push(legal, pred);
        }
        if legal.from_index == idx_desde as usize && legal.to_index == idx_hasta as usize {
            let es_peon = legal.piece_moving == W_PAWN || legal.piece_moving == B_PAWN;
            if quiere != 256 && es_peon {
                if legal.move_type == quiere {
                    candidatas.push(legal);
                }
            } else if legal.move_type < PROMOTION_QUEEN {
                candidatas.push(legal);
            }
        }
        i += 1;
    }
    assert(legales@.take(legales.len() as int) =~= legales@);
    if candidatas.len() == 1 {
        candidatas[0]
    } else {
        Movim::ninguno()
    }
}

/// Whether a character is another than `c`.
pub open spec fn other_than(c: char) -> spec_fn(char) -> bool {
    |x: char| x != c
}

/// The text without any `c`.
pub open spec fn without(s: Seq<char>, c: char) -> Seq<char> {
    s.filter(other_than(c))
}

/// The text without the `?` and `!` at its end.
pub open spec fn trim_marks(s: Seq<char>) -> Seq<char>
    decreases s.len(),
{
    if s.len() > 0 && (s.last() == '?' || s.last() == '!') {
        trim_marks(s.drop_last())
    } else {
        s
    }
}

/// The text without a `+` or `#` at its end.
pub open spec fn trim_check(s: Seq<char>) -> Seq<char> {
    if s.len() > 0 && (s.last() == '+' || s.last() == '#') {
        s.drop_last()
    } else {
        s
    }
}

/// A move's text without its decorations: every `=`, the `?` and `!` at the
/// end, and one `+` or `#` before them.
pub open spec fn stripped(s: Seq<char>) -> Seq<char> {
    trim_check(trim_marks(without(s, '=')))
}

/// Takes the decorations off the characters of a move's text.
pub fn limpia(san: &Vec<char>) -> (v: Vec<char>)
    ensures
        v@ == stripped(san@),
{
    let mut v: Vec<char> = Vec::new();
    let ghost pred = other_than('=');
    let mut i: usize = 0;
    assert(san@.take(0).filter(pred) =~= Seq::<char>::empty());
    while i < san.len()
        invariant
            0 <= i <= san.len(),
            pred == other_than('='),
            v@ == san@.take(i as int).filter(pred),
        decreases san.len() - i,
    {
        proof {
            assert(san@.take(i + 1) =~= san@.take(i as int).push(san@[i as int]));
            san@.take(i as int).lemma_filter_push(san@[i as int], pred);
        }
        if san[i] != '=' {
            v.push(san[i]);
        }
        i += 1;
    }
    assert(san@.take(san.len() as int) =~= san@);
    let ghost sin = v@;
    while v.len() > 0 && (v[v.len() - 1] == '?' || v[v.len() - 1] == '!')
        invariant
            trim_marks(v@) == trim_marks(sin),
        decreases v.len(),
    {
        v.pop();
    }
    assert(v@ == trim_marks(sin));
    if v.len() > 0 && (v[v.len() - 1] == '+' || v[v.len() - 1] == '#') {
        v.pop();
    }
    v
}

/// Takes the decorations off a move's text.
pub fn stripped_san(san_vestida: String) -> (san: String)
    ensures
        san@ == stripped(san_vestida@),
{
    let v = limpia(&a_caracteres(san_vestida.as_str()));
    let s = crate::texto::a_cadena(&v, 0, v.len());
    assert(v@.subrange(0, v.len() as int) =~= v@);
    s
}

} // verus!
