//! The state of the game: check, mate, stalemate and the draws by material,
//! repetition and the fifty-move rule.

use vstd::prelude::*;
use crate::ataque::{busca_rey, es_atacada, in_check, is_king_square};
use crate::defs::{
    en_tablero, file_of, fn_columna, fn_fila, on_board, rank_of, B_BISHOP, B_KNIGHT,
    EMPTY_SQUARE, W_BISHOP, W_KNIGHT,
};
use crate::genera::{generate_moves, legal_moves};
use crate::tablero::{Historia, Posicion, Tablero};

verus! {

/// Whether the king of the side to move is attacked.
pub fn rey_en_jaque(board: &mut Tablero) -> (jaque: bool)
    requires
        old(board)@.sound(),
    ensures
        jaque == in_check(old(board)@),
        final(board)@ == old(board)@,
        final(board).history == old(board).history,
{
    let ghost p = board@;
    let turno: i16 = board.to_move;
    let casilla_rey: i16 = busca_rey(board, turno);
    if casilla_rey == 1024 {
        return false;
    }
    board.modif_bando(-turno);
    assert(board@ == p.flipped());
    let atacada = es_atacada(board, casilla_rey);
    board.modif_bando(turno);
    assert(board@ == p);
    assert(is_king_square(p, p.to_move, casilla_rey as int));
    atacada
}

/// Checkmate: the side to move is in check and has no legal move.
pub open spec fn checkmate(p: Posicion) -> bool {
    in_check(p) && legal_moves(p).len() == 0
}

/// Stalemate: the side to move is not in check and has no legal move.
pub open spec fn stalemate(p: Posicion) -> bool {
    !in_check(p) && legal_moves(p).len() == 0
}

/// Whether the side to move has no legal move and is not in check.
pub fn rey_ahogado(board: &mut Tablero) -> (ahogado: bool)
    requires
        old(board)@.wf(),
    ensures
        ahogado == stalemate(old(board)@),
        final(board)@ == old(board)@,
        final(board).history == old(board).history,
{
    !rey_en_jaque(board) && generate_moves(board).len() == 0
}

/// Whether the side to move is in check and has no legal move.
pub fn rey_en_mate(board: &mut Tablero) -> (mate: bool)
    requires
        old(board)@.wf(),
    ensures
        mate == checkmate(old(board)@),
        final(board)@ == old(board)@,
        final(board).history == old(board).history,
{
    rey_en_jaque(board) && generate_moves(board).len() == 0
}

/// Whether the piece code is a bishop's, of either colour.
pub open spec fn is_bishop(piece: int) -> bool {
    piece == W_BISHOP || piece == B_BISHOP
}

/// Whether the piece code is a knight's, of either colour.
pub open spec fn is_knight(piece: int) -> bool {
    piece == W_KNIGHT || piece == B_KNIGHT
}

/// The colour of a square: 0 for the colour of a1, 1 for the other.
pub open spec fn shade(sq: int) -> int {
    (rank_of(sq) + file_of(sq)) % 2
}

/// How many squares of the board below `n` hold a piece.
pub open spec fn pieces_upto(p: Posicion, n: int) -> int
    decreases n,
{
    if n <= 0 {
        0
    } else {
        pieces_upto(p, n - 1) + if on_board(n - 1) && p.at(n - 1) != 0 {
            1int
        } else {
            0int
        }
    }
}

/// How many squares of the board below `n` hold a knight.
pub open spec fn knights_upto(p: Posicion, n: int) -> int
    decreases n,
{
    if n <= 0 {
        0
    } else {
        knights_upto(p, n - 1) + if on_board(n - 1) && is_knight(p.at(n - 1)) {
            1int
        } else {
            0int
        }
    }
}

/// How many squares of colour `s` below `n` hold a bishop.
pub open spec fn bishops_upto(p: Posicion, s: int, n: int) -> int
    decreases n,
{
    if n <= 0 {
        0
    } else {
        bishops_upto(p, s, n - 1) + if on_board(n - 1) && is_bishop(p.at(n - 1)) && shade(n - 1)
            == s {
            1int
        } else {
            0int
        }
    }
}

/// Neither side can mate: two pieces are left (the kings); or three, one of
/// them a bishop or a knight; or, beside two pieces, only bishops, all on
/// squares of one colour.
pub open spec fn insufficient(p: Posicion) -> bool {
    let n = pieces_upto(p, 128);
    let dark = bishops_upto(p, 0, 128);
    let light = bishops_upto(p, 1, 128);
    let knights = knights_upto(p, 128);
    ||| n == 2
    ||| n == 3 && (dark + light == 1 || knights == 1)
    ||| dark + light > 0 && n == dark + light + 2 && (dark == 0 || light == 0)
}

/// Whether the material left cannot give mate.
pub fn material_insuficiente(board: &mut Tablero) -> (tablas: bool)
    ensures
        tablas == insufficient(old(board)@),
        final(board)@ == old(board)@,
        final(board).history == old(board).history,
{
    let mut num_piezas: i16 = 0;
    let mut caballos: i16 = 0;
    let mut oscuros: i16 = 0;
    let mut claros: i16 = 0;
    let mut i: i16 = 0;
    while i < 128
        invariant
            0 <= i <= 128,
            board@ == old(board)@,
            board.history == old(board).history,
            num_piezas == pieces_upto(board@, i as int),
            caballos == knights_upto(board@, i as int),
            oscuros == bishops_upto(board@, 0, i as int),
            claros == bishops_upto(board@, 1, i as int),
            0 <= num_piezas <= i,
            0 <= caballos <= i,
            0 <= oscuros <= i,
            0 <= claros <= i,
        decreases 128 - i,
    {
        if en_tablero(i) {
            let pieza: i16 = board.board_array[i as usize];
            if pieza != EMPTY_SQUARE {
                num_piezas += 1;
                if pieza == W_KNIGHT || pieza == B_KNIGHT {
                    caballos += 1;
                }
                if pieza == W_BISHOP || pieza == B_BISHOP {
                    if (fn_fila(i) + fn_columna(i)) % 2 == 0 {
                        oscuros += 1;
                    } else {
                        claros += 1;
                    }
                }
            }
        }
        i += 1;
    }
    let alfiles: i16 = oscuros + claros;
    if num_piezas == 2 {
        true
    } else if num_piezas == 3 && (alfiles == 1 || caballos == 1) {
        true
    } else {
        alfiles > 0 && num_piezas == alfiles + 2 && (oscuros == 0 || claros == 0)
    }
}

/// How many of the first `n` entries of the log hold position `pos`.
pub open spec fn occurrences(log: Seq<Historia>, pos: Seq<char>, n: int) -> int
    decreases n,
{
    if n <= 0 {
        0
    } else {
        occurrences(log, pos, n - 1) + if log[n - 1].posicion@ == pos {
            1int
        } else {
            0int
        }
    }
}

/// The position of the last entry of the log stands in the log three times
/// or more.
pub open spec fn threefold(log: Seq<Historia>) -> bool {
    log.len() > 0 && occurrences(log, log.last().posicion@, log.len() as int) >= 3
}

/// Whether the position last played from has come up three times.
pub fn repeticion_triple(board: &mut Tablero) -> (repetida: bool)
    ensures
        repetida == threefold(old(board).history@),
        final(board)@ == old(board)@,
        final(board).history == old(board).history,
{
    let n = board.history.len();
    if n == 0 {
        return false;
    }
    let mut ocurrencias: usize = 0;
    let mut i: usize = 0;
    while i < n
        invariant
            0 <= i <= n,
            n == board.history@.len(),
            board@ == old(board)@,
            board.history == old(board).history,
            ocurrencias == occurrences(
                board.history@,
                board.history@.last().posicion@,
                i as int,
            ),
            ocurrencias <= i,
        decreases n - i,
    {
        if board.history[i].posicion == board.history[n - 1].posicion {
            ocurrencias += 1;
        }
        i += 1;
    }
    ocurrencias >= 3
}

/// The game is over: by the fifty-move rule, by mate or stalemate, for want
/// of material, or by threefold repetition.
pub open spec fn is_over(p: Posicion, log: Seq<Historia>) -> bool {
    p.moves_fifty >= 100 || checkmate(p) || stalemate(p) || insufficient(p) || threefold(log)
}

/// Whether the game is over.
pub fn game_over(board: &mut Tablero) -> (fin: bool)
    requires
        old(board)@.wf(),
    ensures
        fin == is_over(old(board)@, old(board).history@),
        final(board)@ == old(board)@,
        final(board).history == old(board).history,
{
    board.moves_fifty >= 100 || rey_en_mate(board) || rey_ahogado(board) || material_insuficiente(
        board,
    ) || repeticion_triple(board)
}

} // verus!
