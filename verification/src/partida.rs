//! The game: setting up, making and taking back moves, and what is shown of
//! the board and of the moves made.

use vstd::prelude::*;
use crate::defs::{square_at, CASTLE_BOTH, WHITE_TO_MOVE};
use crate::fen::{carga_fen, fen_mutilada, fen_valida, posicion_fen, short_fen};
use crate::genera::{generate_moves, legal_moves, move_of};
use crate::jugada::{
    encaja, lemma_make_wf, lemma_unmake_make, make_movim, make_spec, move_fits, unmake_movim,
    unmake_ready, unmake_spec,
};
use crate::notacion::{
    algebra_move, casilla_de_nombre, crea_algebra, crea_flags, crea_san, crea_uci, flag_text,
    is_square_name, pieza_char, piece_text, san_text, square_of, uci_text,
};
use crate::san::{move_from_san, san_move};
use crate::tablero::{bien_formado, Historia, Movim, Posicion, Tablero};
use crate::texto::{a_caracteres, digits_of, pon_digitos, pon_texto, DIGITS};

verus! {

/// The board at the start of a game.
pub const START_BOARD: [i16; 128] = [
    3, 5, 4, 2, 1, 4, 5, 3, 0, 0, 0, 0, 0, 0, 0, 0,
    6, 6, 6, 6, 6, 6, 6, 6, 0, 0, 0, 0, 0, 0, 0, 0,
    0, 0, 0, 0, 0, 0, 0, 0, 0, 0, 0, 0, 0, 0, 0, 0,
    0, 0, 0, 0, 0, 0, 0, 0, 0, 0, 0, 0, 0, 0, 0, 0,
    0, 0, 0, 0, 0, 0, 0, 0, 0, 0, 0, 0, 0, 0, 0, 0,
    0, 0, 0, 0, 0, 0, 0, 0, 0, 0, 0, 0, 0, 0, 0, 0,
    -6, -6, -6, -6, -6, -6, -6, -6, 0, 0, 0, 0, 0, 0, 0, 0,
    -3, -5, -4, -2, -1, -4, -5, -3, 0, 0, 0, 0, 0, 0, 0, 0,
];

/// The position at the start of a game.
pub open spec fn initial() -> Posicion {
    Posicion {
        squares: START_BOARD@,
        to_move: 1,
        en_passant: -1,
        white_castle: 3,
        black_castle: 3,
        moves_fifty: 0,
        moves_full: 1,
    }
}

/// Whether the counters of a position have room for one more move.
pub open spec fn has_room(p: Posicion) -> bool {
    p.moves_fifty + 1 < i16::MAX && p.moves_full + 1 < i16::MAX
}

/// The position and its log belong to a game: the position is fit for
/// play, and each entry of the log holds a move that fits the position
/// before it, leads to the position after it, and stands beside the text
/// of the position before it.
pub open spec fn game_ok(p: Posicion, log: Seq<Historia>) -> bool
    decreases log.len(),
{
    &&& p.wf()
    &&& log.len() > 0 ==> {
        let m = log.last().mov;
        let q = unmake_spec(p, m);
        &&& move_fits(q, m)
        &&& make_spec(q, m) == p
        &&& log.last().posicion@ == short_fen(q)
        &&& game_ok(q, log.drop_last())
    }
}

/// A new game.
pub fn reset() -> (t: Tablero)
    ensures
        t@ == initial(),
        t.history@.len() == 0,
        game_ok(t@, t.history@),
{
    Tablero {
        board_array: START_BOARD,
        to_move: WHITE_TO_MOVE,
        en_passant: -1,
        white_castle: CASTLE_BOTH,
        black_castle: CASTLE_BOTH,
        moves_fifty: 0,
        moves_full: 1,
        history: Vec::new(),
    }
}

/// Sets the board up for a new game.
pub fn setup_inicio(board: &mut Tablero) -> (ok: bool)
    ensures
        ok,
        final(board)@ == initial(),
        final(board).history@.len() == 0,
        game_ok(final(board)@, final(board).history@),
{
    *board = reset();
    true
}

/// The text that stands for "nothing".
pub open spec fn none_text() -> Seq<char> {
    seq!['N', 'o', 'n', 'e']
}

/// The text that stands for "nothing".
fn nada() -> (s: String)
    ensures
        s@ == none_text(),
{
    let mut s = String::new();
    s.push('N');
    s.push('o');
    s.push('n');
    s.push('e');
    assert(s@ =~= none_text());
    s
}

/// Move `m` was made from position `p` with log `log`, and `q` with `qlog`
/// is what came of it: the position after the move, and the log with one
/// more entry, which holds the move and the text of `p`.
pub open spec fn applied(
    p: Posicion,
    log: Seq<Historia>,
    m: Movim,
    q: Posicion,
    qlog: Seq<Historia>,
) -> bool {
    &&& q == make_spec(p, m)
    &&& qlog.len() == log.len() + 1
    &&& qlog.drop_last() == log
    &&& qlog.last().mov == m
    &&& qlog.last().posicion@ == short_fen(p)
}

/// What is told of a move made: its text, its coordinates, the side that
/// made it, the letter of its piece and the letter of its kind.
pub open spec fn told(
    r: (String, String, String, String, String),
    san: Seq<char>,
    m: Movim,
    side: int,
) -> bool {
    &&& r.0@ == san
    &&& r.1@ == uci_text(m)
    &&& r.2@ == (if side == 1 {
        seq!['w']
    } else {
        seq!['b']
    })
    &&& r.3@ == piece_text(m.piece_moving as int)
    &&& r.4@ == flag_text(m.move_type as int)
}

/// What is told where no move was made: "None" five times.
pub open spec fn told_nothing(r: (String, String, String, String, String)) -> bool {
    &&& r.0@ == none_text()
    &&& r.1@ == none_text()
    &&& r.2@ == none_text()
    &&& r.3@ == none_text()
    &&& r.4@ == none_text()
}

/// Makes a move that fits on the board and writes it into the log.
fn anota(board: &mut Tablero, movim: Movim)
    requires
        old(board)@.wf(),
        has_room(old(board)@),
        move_fits(old(board)@, movim),
    ensures
        applied(old(board)@, old(board).history@, movim, final(board)@, final(board).history@),
        final(board)@.wf(),
        game_ok(old(board)@, old(board).history@) ==> game_ok(
            final(board)@,
            final(board).history@,
        ),
{
    let ghost p = board@;
    let ghost log = board.history@;
    proof {
        lemma_make_wf(p, movim);
        lemma_unmake_make(p, movim);
    }
    let posic = fen_mutilada(board);
    let jug = make_movim(board, movim);
    let hist = Historia { posicion: posic, mov: jug };
    board.anade_historico(hist);
    assert(board.history@.drop_last() =~= log);
}

/// The text for the side to move.
fn turno_de(bando: i16) -> (s: String)
    ensures
        s@ == (if bando == 1 {
            seq!['w']
        } else {
            seq!['b']
        }),
{
    let mut s = String::new();
    if bando == 1 {
        s.push('w');
    } else {
        s.push('b');
    }
    assert(s@ =~= (if bando == 1 {
        seq!['w']
    } else {
        seq!['b']
    }));
    s
}

/// Makes the legal move from one square to another, both given by name,
/// with the promotion asked for, and tells of it; where there is no such
/// move, the board stays as it is and "None" is told.
pub fn mueve_algebra(board: &mut Tablero, jugada: (&str, &str, &str)) -> (r: (
    String,
    String,
    String,
    String,
    String,
))
    requires
        old(board)@.wf(),
        has_room(old(board)@),
    ensures
        ({
            let m = algebra_move(old(board)@, jugada.0@, jugada.1@, jugada.2@);
            if m.piece_moving != 0 {
                &&& applied(
                    old(board)@,
                    old(board).history@,
                    m,
                    final(board)@,
                    final(board).history@,
                )
                &&& told(r, san_text(final(board)@, m), m, old(board)@.to_move)
            } else {
                &&& final(board)@ == old(board)@
                &&& final(board).history == old(board).history
                &&& told_nothing(r)
            }
        }),
        final(board)@.wf(),
        game_ok(old(board)@, old(board).history@) ==> game_ok(
            final(board)@,
            final(board).history@,
        ),
{
    let movim = crea_algebra(board, jugada);
    if movim.piece_moving != 0 {
        let uci = crea_uci(movim);
        let turno = turno_de(board.to_move);
        anota(board, movim);
        let san = crea_san(board, movim);
        let pieza = pieza_char(movim.piece_moving).to_owned();
        (san, uci, turno, pieza, crea_flags(movim.move_type))
    } else {
        (nada(), nada(), nada(), nada(), nada())
    }
}

/// Makes the legal move that a text in standard algebraic notation names
/// and tells of it, with the text as it was given; where it names none,
/// the board stays as it is and "None" is told.
pub fn mueve_san(board: &mut Tablero, san: &str) -> (r: (String, String, String, String, String))
    requires
        old(board)@.wf(),
        has_room(old(board)@),
    ensures
        ({
            let m = san_move(old(board)@, san@);
            if m.piece_moving != 0 {
                &&& applied(
                    old(board)@,
                    old(board).history@,
                    m,
                    final(board)@,
                    final(board).history@,
                )
                &&& told(r, san@, m, old(board)@.to_move)
            } else {
                &&& final(board)@ == old(board)@
                &&& final(board).history == old(board).history
                &&& told_nothing(r)
            }
        }),
        final(board)@.wf(),
        game_ok(old(board)@, old(board).history@) ==> game_ok(
            final(board)@,
            final(board).history@,
        ),
{
    let jugada = move_from_san(board, san);
    if jugada.piece_moving != 0 {
        let uci = crea_uci(jugada);
        let turno = turno_de(board.to_move);
        anota(board, jugada);
        let pieza = pieza_char(jugada.piece_moving).to_owned();
        (san.to_owned(), uci, turno, pieza, crea_flags(jugada.move_type))
    } else {
        (nada(), nada(), nada(), nada(), nada())
    }
}

/// A move that was made and written into the log is taken back to where it
/// was made from: the position and the log before it.
pub proof fn lemma_apply_undo(
    p: Posicion,
    log: Seq<Historia>,
    m: Movim,
    q: Posicion,
    qlog: Seq<Historia>,
)
    requires
        p.wf(),
        move_fits(p, m),
        applied(p, log, m, q, qlog),
    ensures
        unmake_spec(q, qlog.last().mov) == p,
        qlog.drop_last() == log,
        undo_ready(q, qlog),
{
    lemma_unmake_make(p, m);
    lemma_make_wf(p, m);
}

/// What taking back the last move of a log needs: nothing of an empty log,
/// and else that the board is ready for its last move to be taken back.
pub open spec fn undo_ready(p: Posicion, log: Seq<Historia>) -> bool {
    log.len() > 0 ==> unmake_ready(p, log.last().mov)
}

/// In a game, the last move can always be taken back, and what is left is
/// the game before it.
pub proof fn lemma_game_undo(p: Posicion, log: Seq<Historia>)
    requires
        game_ok(p, log),
    ensures
        undo_ready(p, log),
        log.len() > 0 ==> log.last().mov.piece_moving != 0 && game_ok(
            unmake_spec(p, log.last().mov),
            log.drop_last(),
        ),
{
    if log.len() > 0 {
        let m = log.last().mov;
        let q = unmake_spec(p, m);
        assert(game_ok(q, log.drop_last()));
        assert(q.wf());
        lemma_make_wf(q, m);
    }
}

/// Takes the last entry off the log and takes its move back on the board.
/// The answer is whether a move was taken back: with an empty log nothing
/// changes, and an entry that holds the move that stands for "no move" is
/// only taken off.
pub fn mueve_atras(board: &mut Tablero) -> (hecho: bool)
    requires
        undo_ready(old(board)@, old(board).history@),
    ensures
        hecho == (old(board).history@.len() > 0 && old(board).history@.last().mov.piece_moving
            != 0),
        final(board)@ == (if hecho {
            unmake_spec(old(board)@, old(board).history@.last().mov)
        } else {
            old(board)@
        }),
        final(board).history@ == (if old(board).history@.len() > 0 {
            old(board).history@.drop_last()
        } else {
            old(board).history@
        }),
        game_ok(old(board)@, old(board).history@) ==> game_ok(
            final(board)@,
            final(board).history@,
        ) && hecho == (old(board).history@.len() > 0),
{
    proof {
        if game_ok(board@, board.history@) {
            lemma_game_undo(board@, board.history@);
        }
    }
    let quitada = board.quita_historico();
    if quitada.mov.piece_moving != 0 {
        unmake_movim(board, quitada.mov);
        return true;
    }
    assert(board.history@ =~= (if old(board).history@.len() > 0 {
        old(board).history@.drop_last()
    } else {
        old(board).history@
    }));
    false
}

/// The legal moves of the side to move in coordinate notation.
pub fn jugadas_posibles(board: &mut Tablero) -> (posibles: Vec<String>)
    requires
        old(board)@.wf(),
    ensures
        posibles@.len() == legal_moves(old(board)@).len(),
        forall|i: int|
            0 <= i < posibles@.len() ==> (#[trigger] posibles@[i])@ == uci_text(
                legal_moves(old(board)@)[i],
            ),
        final(board)@ == old(board)@,
        final(board).history == old(board).history,
{
    let mut posibles: Vec<String> = Vec::new();
    let generadas = generate_moves(board);
    let mut i: usize = 0;
    while i < generadas.len()
        invariant
            0 <= i <= generadas.len(),
            posibles@.len() == i,
            forall|k: int| 0 <= k < i ==> (#[trigger] posibles@[k])@ == uci_text(generadas@[k]),
        decreases generadas.len() - i,
    {
        posibles.push(crea_uci(generadas[i]));
        i += 1;
    }
    posibles
}

/// The square shown at place `i` of the board, the eighth rank first and
/// file a first in each rank.
pub open spec fn shown_square(i: int) -> int {
    square_at(i % 8, 7 - i / 8)
}

/// The pieces of the board as they are shown: 64 letters, `-` for an empty
/// square, from a8 along the ranks to h1.
pub fn tablero_grafico(board: &Tablero) -> (piezas: Vec<String>)
    ensures
        piezas@.len() == 64,
        forall|i: int|
            0 <= i < 64 ==> (#[trigger] piezas@[i])@ == piece_text(board@.at(shown_square(i))),
{
    let mut piezas: Vec<String> = Vec::new();
    let mut i: usize = 0;
    while i < 64
        invariant
            0 <= i <= 64,
            piezas@.len() == i,
            forall|k: int|
                0 <= k < i ==> (#[trigger] piezas@[k])@ == piece_text(
                    board@.at(shown_square(k)),
                ),
        decreases 64 - i,
    {
        let sq: usize = 16 * (7 - i / 8) + i % 8;
        piezas.push(pieza_char(board.board_array[sq]).to_owned());
        i += 1;
    }
    piezas
}

/// The letter of the piece on the square that `casilla` names, `-` for an
/// empty square; "None" where `casilla` names no square.
pub fn get_pieza(board: &Tablero, casilla: &str) -> (s: String)
    ensures
        s@ == (if is_square_name(casilla@) {
            piece_text(board@.at(square_of(casilla@[0], casilla@[1])))
        } else {
            none_text()
        }),
{
    match casilla_de_nombre(&a_caracteres(casilla)) {
        Some(sq) => pieza_char(board.board_array[sq as usize]).to_owned(),
        None => nada(),
    }
}

/// The first `n` squares of a rank as they are drawn: each piece's letter
/// between two blanks.
pub open spec fn drawn_cells(p: Posicion, rank: int, n: int) -> Seq<char>
    decreases n,
{
    if n <= 0 {
        Seq::empty()
    } else {
        drawn_cells(p, rank, n - 1) + seq![' '] + piece_text(p.at(square_at(n - 1, rank)))
            + seq![' ']
    }
}

/// A rank as it is drawn: its number, its squares, and the frame.
pub open spec fn drawn_rank(p: Posicion, rank: int) -> Seq<char> {
    seq![DIGITS@[rank + 1], ' ', '|', ' '] + drawn_cells(p, rank, 8) + seq![' ', '|', '\n']
}

/// The ranks from `rank` down to the first as they are drawn.
pub open spec fn drawn_ranks(p: Posicion, rank: int) -> Seq<char>
    decreases rank + 1,
{
    if rank < 0 {
        Seq::empty()
    } else {
        drawn_rank(p, rank) + drawn_ranks(p, rank - 1)
    }
}

/// The board as a drawing in text: a frame, the ranks from the eighth to
/// the first, and the file letters below.
pub open spec fn drawing(p: Posicion) -> Seq<char> {
    "  +--------------------------+\n"@ + drawn_ranks(p, 7)
        + "  +--------------------------+\n"@ + "     a  b  c  d  e  f  g  h\n"@
}

/// Appends a rank as it is drawn.
fn dibuja_fila(s: &mut String, board: &Tablero, rank: usize)
    requires
        rank < 8,
    ensures
        final(s)@ == old(s)@ + drawn_rank(board@, rank as int),
{
    s.push(DIGITS[rank + 1]);
    s.push(' ');
    s.push('|');
    s.push(' ');
    let ghost inicio = s@;
    let mut i: usize = 0;
    while i < 8
        invariant
            0 <= i <= 8,
            rank < 8,
            s@ == inicio + drawn_cells(board@, rank as int, i as int),
        decreases 8 - i,
    {
        s.push(' ');
        pon_texto(s, pieza_char(board.board_array[16 * rank + i]));
        s.push(' ');
        i += 1;
        assert(s@ =~= inicio + drawn_cells(board@, rank as int, i as int));
    }
    s.push(' ');
    s.push('|');
    s.push('\n');
    assert(s@ =~= old(s)@ + drawn_rank(board@, rank as int));
}

/// The board as a drawing in text.
pub fn ascii(board: &Tablero) -> (s: String)
    ensures
        s@ == drawing(board@),
{
    let mut s = String::new();
    pon_texto(&mut s, "  +--------------------------+\n");
    let ghost marco = s@;
    let mut rank: usize = 8;
    while rank > 0
        invariant
            0 <= rank <= 8,
            s@ + drawn_ranks(board@, rank - 1) == marco + drawn_ranks(board@, 7),
        decreases rank,
    {
        let ghost antes = s@;
        rank -= 1;
        dibuja_fila(&mut s, board, rank);
        assert(s@ + drawn_ranks(board@, rank - 1) =~= antes + drawn_ranks(board@, rank as int));
    }
    assert(s@ =~= marco + drawn_ranks(board@, 7));
    pon_texto(&mut s, "  +--------------------------+\n");
    pon_texto(&mut s, "     a  b  c  d  e  f  g  h\n");
    assert(s@ =~= drawing(board@));
    s
}

/// What the transcript says of the move with text `san` by the piece
/// `piece`, as move number `num` of the transcript: the first move is
/// numbered 1, with dots before a move of black; later moves of white bear
/// their number; a blank follows each move.
pub open spec fn move_entry(san: Seq<char>, piece: int, num: int) -> Seq<char> {
    if num == 1 {
        if piece < 0 {
            "1. ... "@ + san + seq![' ']
        } else {
            "1. "@ + san + seq![' ']
        }
    } else if piece > 0 {
        digits_of(num) + seq!['.', ' '] + san + seq![' ']
    } else {
        san + seq![' ']
    }
}

/// The number that the next numbered move of the transcript bears.
pub open spec fn next_number(piece: int, num: int) -> int {
    if num == 1 || piece > 0 {
        num + 1
    } else {
        num
    }
}

/// Move `m` as it is made again from position `p`: with the snapshot of
/// `p`, whose counters are not those of the game.
pub open spec fn again(p: Posicion, m: Movim) -> Movim {
    move_of(
        p,
        m.piece_moving as int,
        m.from_index as int,
        m.to_index as int,
        m.capture as int,
        m.move_type as int,
    )
}

/// Whether a move of the log can be made again from position `p`.
pub open spec fn can_replay(p: Posicion, m: Movim) -> bool {
    p.wf() && has_room(p) && move_fits(p, again(p, m))
}

/// The moves of the log from entry `i` on, made one after another from
/// position `p` and written out; nothing where a position is not fit for
/// play or a move does not fit.
pub open spec fn replay(p: Posicion, log: Seq<Historia>, i: int, num: int) -> Option<Seq<char>>
    decreases log.len() - i,
{
    if i < 0 || i >= log.len() {
        Some(seq!['\n'])
    } else {
        let m = again(p, log[i].mov);
        if !can_replay(p, log[i].mov) {
            None
        } else {
            let q = make_spec(p, m);
            match replay(q, log, i + 1, next_number(m.piece_moving as int, num)) {
                Some(rest) => Some(move_entry(san_text(q, m), m.piece_moving as int, num) + rest),
                None => None,
            }
        }
    }
}

/// The position text from which a log starts, with counters put to it.
pub open spec fn start_fen(log: Seq<Historia>) -> Seq<char> {
    log[0].posicion@ + " 0 1"@
}

/// The transcript of a log: the position it starts from, as a tag, and its
/// moves, made again from that position and written in standard algebraic
/// notation; "None" where the log cannot be played again.
pub open spec fn transcript(log: Seq<Historia>) -> Seq<char> {
    let fen = start_fen(log);
    if !fen_valida(fen) {
        none_text()
    } else {
        match replay(posicion_fen(fen), log, 0, 1) {
            Some(moves) => "[FEN \""@ + fen + "\"]\n\n"@ + moves,
            None => none_text(),
        }
    }
}

/// Appends what the transcript says of one move.
fn pon_jugada(s: &mut String, san: &String, pieza: i16, num: usize)
    ensures
        final(s)@ == old(s)@ + move_entry(san@, pieza as int, num as int),
{
    if num == 1 {
        if pieza < 0 {
            pon_texto(s, "1. ... ");
        } else {
            pon_texto(s, "1. ");
        }
        pon_texto(s, san.as_str());
    } else if pieza > 0 {
        pon_digitos(s, num as u64);
        s.push('.');
        s.push(' ');
        pon_texto(s, san.as_str());
    } else {
        pon_texto(s, san.as_str());
    }
    s.push(' ');
    assert(s@ =~= old(s)@ + move_entry(san@, pieza as int, num as int));
}

/// Makes a move of the log again on the board and gives its text, or
/// nothing, with the board as it was, where the move cannot be made again.
fn repite(tablero: &mut Tablero, jugada: Movim) -> (san: Option<String>)
    ensures
        san is Some <==> can_replay(old(tablero)@, jugada),
        san is Some ==> final(tablero)@ == make_spec(
            old(tablero)@,
            again(old(tablero)@, jugada),
        ) && san->0@ == san_text(final(tablero)@, again(old(tablero)@, jugada)),
        san is None ==> final(tablero)@ == old(tablero)@,
{
    let mov = Movim::init(
        jugada.piece_moving,
        jugada.from_index,
        jugada.to_index,
        jugada.capture,
        jugada.move_type,
        [tablero.en_passant, tablero.white_castle, tablero.black_castle, tablero.moves_fifty],
    );
    assert(mov.prev_pos =~= again(tablero@, jugada).prev_pos);
    if !(bien_formado(tablero) && tablero.moves_fifty < i16::MAX - 1 && tablero.moves_full
        < i16::MAX - 1 && encaja(tablero, mov)) {
        return None;
    }
    proof {
        lemma_make_wf(tablero@, mov);
    }
    make_movim(tablero, mov);
    Some(crea_san(tablero, mov))
}

/// The transcript of the game: its moves are made again, from the first
/// position of the log, and written down.
pub fn pgn(board: &Tablero) -> (s: String)
    requires
        board.history@.len() > 0,
    ensures
        s@ == transcript(board.history@),
{
    let ghost log = board.history@;
    let mut fen = board.history[0].posicion.clone();
    pon_texto(&mut fen, " 0 1");
    let mut tablero = match carga_fen(fen.as_str()) {
        Ok(t) => t,
        Err(_) => {
            return nada();
        },
    };
    let mut moves = String::new();
    let mut hechas: usize = 0;
    let mut i: usize = 0;
    let n = board.history.len();
    while i < n
        invariant
            0 <= i <= n,
            n == log.len(),
            log == board.history@,
            hechas <= i,
            match replay(tablero@, log, i as int, hechas + 1) {
                Some(rest) => replay(posicion_fen(start_fen(log)), log, 0, 1) == Some(
                    moves@ + rest,
                ),
                None => replay(posicion_fen(start_fen(log)), log, 0, 1) is None,
            },
        decreases n - i,
    {
        let jugada = board.history[i].mov;
        let ghost p = tablero@;
        let ghost antes = moves@;
        let v_san = match repite(&mut tablero, jugada) {
            Some(san) => san,
            None => {
                return nada();
            },
        };
        pon_jugada(&mut moves, &v_san, jugada.piece_moving, hechas + 1);
        proof {
            let mov = again(p, jugada);
            let siguiente = next_number(mov.piece_moving as int, hechas + 1);
            match replay(tablero@, log, i + 1, siguiente) {
                Some(rest) => {
                    assert(antes + (move_entry(v_san@, mov.piece_moving as int, hechas + 1)
                        + rest) =~= moves@ + rest);
                },
                None => {},
            }
        }
        if hechas == 0 || jugada.piece_moving > 0 {
            hechas += 1;
        }
        i += 1;
    }
    moves.push('\n');
    let mut s = String::new();
    pon_texto(&mut s, "[FEN \"");
    pon_texto(&mut s, fen.as_str());
    pon_texto(&mut s, "\"]\n\n");
    pon_texto(&mut s, moves.as_str());
    s
}

} // verus!
