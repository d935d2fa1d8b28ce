//! Move generation: the moves that the pieces' ways of moving give, and
//! among them those that leave the mover's king safe.

use vstd::prelude::*;
use crate::ataque::{
    attacked, es_atacada, has_king, is_king_square, lemma_line, ray_square,
};
use crate::defs::{
    abs_int, en_tablero, fn_fila, on_board, opposed, rank_of, seen_by, visto, BISHOP_DELTA, B_KING, B_PAWN, CASTLE_BOTH,
    CASTLE_LONG, CASTLE_SHORT, EMPTY_SQUARE, EN_PASSANT, KING_DELTA, KNIGHT_DELTA, LONG_CASTLE,
    ORDINARY_MOVE, PROMOTION_BISHOP, PROMOTION_KNIGHT, PROMOTION_QUEEN, PROMOTION_ROOK,
    QUEEN_DELTA, ROOK_DELTA, SHORT_CASTLE, W_BISHOP, W_KING, W_KNIGHT, W_PAWN, W_QUEEN, W_ROOK,
};
use crate::jugada::{
    lemma_make_wf, lemma_unmake_make, make_movim, make_spec, move_fits, unmake_movim,
};
use crate::tablero::{Movim, Posicion, Tablero};

verus! {

/// The move of `piece` from `from` to `to` in position `p`, with its
/// capture and kind and with the snapshot of `p`.
pub open spec fn move_of(p: Posicion, piece: int, from: int, to: int, capture: int, kind: int)
    -> Movim {
    Movim {
        piece_moving: piece as i16,
        from_index: from as usize,
        to_index: to as usize,
        capture: capture as i16,
        move_type: kind as i16,
        prev_pos: [
            p.en_passant as i16,
            p.white_castle as i16,
            p.black_castle as i16,
            p.moves_fifty as i16,
        ],
    }
}

/// Builds the move of `piece` from `from` to `to` on the board as it
/// stands.
fn nuevo(board: &Tablero, piece: i16, from: i16, to: i16, capture: i16, kind: i16) -> (m: Movim)
    requires
        0 <= from,
        0 <= to,
    ensures
        m == move_of(board@, piece as int, from as int, to as int, capture as int, kind as int),
{
    let prev_pos = [board.en_passant, board.white_castle, board.black_castle, board.moves_fifty];
    let m = Movim::init(piece, from as usize, to as usize, capture, kind, prev_pos);
    assert(m.prev_pos =~= move_of(
        board@,
        piece as int,
        from as int,
        to as int,
        capture as int,
        kind as int,
    ).prev_pos);
    m
}

/// Every move of `s` from place `start` on fits position `p`.
pub open spec fn all_fit(p: Posicion, s: Seq<Movim>, start: int) -> bool {
    forall|i: int| start <= i < s.len() ==> move_fits(p, #[trigger] s[i])
}

/// How far a walk by `d` from `cur` can still go on the board.
pub open spec fn ray_room(cur: int, d: int) -> int {
    if d > 0 {
        200 - cur
    } else {
        200 + cur
    }
}

/// The moves of the piece on `from` along step `d`, from target `cur` on:
/// onto each empty square, as far as a sliding piece goes, and onto the
/// first occupied square if an enemy stands there.
pub open spec fn ray_moves(p: Posicion, from: int, d: int, sliding: bool, cur: int) -> Seq<Movim>
    decreases ray_room(cur, d),
{
    if !on_board(cur) || d == 0 || d < -33 || d > 33 {
        Seq::empty()
    } else if p.at(cur) == 0 {
        let m = move_of(p, p.at(from), from, cur, 0, ORDINARY_MOVE as int);
        if sliding {
            seq![m] + ray_moves(p, from, d, sliding, cur + d)
        } else {
            seq![m]
        }
    } else if opposed(p.at(from), p.at(cur)) {
        seq![move_of(p, p.at(from), from, cur, p.at(cur), ORDINARY_MOVE as int)]
    } else {
        Seq::empty()
    }
}

/// The moves of the piece on `from` along the first `n` steps of `deltas`.
pub open spec fn rays_upto(p: Posicion, from: int, deltas: Seq<i16>, sliding: bool, n: int)
    -> Seq<Movim>
    decreases n,
{
    if n <= 0 {
        Seq::empty()
    } else {
        rays_upto(p, from, deltas, sliding, n - 1) + ray_moves(
            p,
            from,
            deltas[n - 1] as int,
            sliding,
            from + deltas[n - 1],
        )
    }
}

/// The moves of the piece on `from` by a step set of eight.
pub open spec fn piece_rays(p: Posicion, from: int, deltas: Seq<i16>, sliding: bool) -> Seq<
    Movim,
> {
    rays_upto(p, from, deltas, sliding, 8)
}

/// Walks one direction for the piece on `index`.
fn gen_ray(board: &Tablero, index: i16, d: i16, sliding: bool, pseudo_moves: &mut Vec<Movim>)
    requires
        board@.sound(),
        on_board(index as int),
        -33 <= d <= 33,
    ensures
        final(pseudo_moves)@ == old(pseudo_moves)@ + ray_moves(
            board@,
            index as int,
            d as int,
            sliding,
            index + d,
        ),
{
    let ghost p = board@;
    let ghost inicio = pseudo_moves@;
    let ghost entero = ray_moves(p, index as int, d as int, sliding, index + d);
    let mut delta_index: i16 = index + d;
    let mut seguir: bool = d != 0;
    assert(-6 <= p.squares[index as int] <= 6);
    while seguir
        invariant
            p == board@,
            p.sound(),
            on_board(index as int),
            -33 <= d <= 33,
            d != 0 || !seguir,
            -6 <= p.squares[index as int] <= 6,
            -40 <= delta_index <= 170,
            inicio + entero == pseudo_moves@ + (if seguir {
                ray_moves(p, index as int, d as int, sliding, delta_index as int)
            } else {
                Seq::empty()
            }),
        decreases
            (if seguir {
                1 + ray_room(delta_index as int, d as int)
            } else {
                0
            }),
    {
        let ghost antes = pseudo_moves@;
        if en_tablero(delta_index) {
            assert(-6 <= p.squares[delta_index as int] <= 6);
            let target: i16 = board.board_array[delta_index as usize];
            let piece: i16 = board.board_array[index as usize];
            if target == EMPTY_SQUARE {
                pseudo_moves.push(nuevo(board, piece, index, delta_index, 0, ORDINARY_MOVE));
                if sliding {
                    delta_index += d;
                } else {
                    seguir = false;
                }
            } else {
                if (piece > 0 && target < 0) || (piece < 0 && target > 0) {
                    pseudo_moves.push(
                        nuevo(board, piece, index, delta_index, target, ORDINARY_MOVE),
                    );
                }
                seguir = false;
            }
        } else {
            seguir = false;
        }
        assert(inicio + entero =~= pseudo_moves@ + (if seguir {
            ray_moves(p, index as int, d as int, sliding, delta_index as int)
        } else {
            Seq::empty()
        }));
    }
    assert(pseudo_moves@ =~= inicio + entero);
}

/// Adds the moves of the piece on `index` by the step set `delta`: a sliding
/// piece goes on along each step, another piece takes one step.
pub fn gen_moves(
    board: &Tablero,
    index: i16,
    delta: [i16; 8],
    sliding: bool,
    pseudo_moves: &mut Vec<Movim>,
)
    requires
        board@.sound(),
        on_board(index as int),
        forall|i: int| 0 <= i < 8 ==> -33 <= #[trigger] delta@[i] <= 33,
    ensures
        final(pseudo_moves)@ == old(pseudo_moves)@ + piece_rays(
            board@,
            index as int,
            delta@,
            sliding,
        ),
{
    let ghost inicio = pseudo_moves@;
    let mut i: usize = 0;
    while i < 8
        invariant
            0 <= i <= 8,
            board@.sound(),
            on_board(index as int),
            forall|i: int| 0 <= i < 8 ==> -33 <= #[trigger] delta@[i] <= 33,
            pseudo_moves@ == inicio + rays_upto(board@, index as int, delta@, sliding, i as int),
        decreases 8 - i,
    {
        gen_ray(board, index, delta[i], sliding, pseudo_moves);
        i += 1;
        assert(pseudo_moves@ =~= inicio + rays_upto(
            board@,
            index as int,
            delta@,
            sliding,
            i as int,
        ));
    }
}

/// The moves of a pawn that arrives on `to`: one ordinary move, or, from the
/// rank before the last, the four promotions.
pub open spec fn pawn_arrivals(p: Posicion, from: int, to: int, capture: int) -> Seq<Movim> {
    let side = p.to_move;
    let piece = W_PAWN * side;
    if rank_of(from) != (if side == 1 { 6int } else { 1int }) {
        seq![move_of(p, piece, from, to, capture, ORDINARY_MOVE as int)]
    } else {
        seq![
            move_of(p, piece, from, to, capture, PROMOTION_QUEEN as int),
            move_of(p, piece, from, to, capture, PROMOTION_ROOK as int),
            move_of(p, piece, from, to, capture, PROMOTION_BISHOP as int),
            move_of(p, piece, from, to, capture, PROMOTION_KNIGHT as int),
        ]
    }
}

/// The captures of a pawn onto `to`, if an enemy stands there.
pub open spec fn pawn_capture(p: Posicion, from: int, to: int) -> Seq<Movim> {
    if on_board(to) && seen_by(p.at(to), p.to_move) < 0 {
        pawn_arrivals(p, from, to, p.at(to))
    } else {
        Seq::empty()
    }
}

/// Adds the moves of a pawn that arrives on `to`.
fn push_arrivals(
    board: &Tablero,
    index: i16,
    to: i16,
    capture: i16,
    pseudo_moves: &mut Vec<Movim>,
)
    requires
        board@.sound(),
        on_board(index as int),
        on_board(to as int),
    ensures
        final(pseudo_moves)@ == old(pseudo_moves)@ + pawn_arrivals(
            board@,
            index as int,
            to as int,
            capture as int,
        ),
{
    let ghost inicio = pseudo_moves@;
    let pawn: i16 = W_PAWN * board.to_move;
    let last: i16 = if board.to_move == 1 {
        6
    } else {
        1
    };
    if fn_fila(index) != last {
        pseudo_moves.push(nuevo(board, pawn, index, to, capture, ORDINARY_MOVE));
    } else {
        pseudo_moves.push(nuevo(board, pawn, index, to, capture, PROMOTION_QUEEN));
        pseudo_moves.push(nuevo(board, pawn, index, to, capture, PROMOTION_ROOK));
        pseudo_moves.push(nuevo(board, pawn, index, to, capture, PROMOTION_BISHOP));
        pseudo_moves.push(nuevo(board, pawn, index, to, capture, PROMOTION_KNIGHT));
    }
    assert(pseudo_moves@ =~= inicio + pawn_arrivals(
        board@,
        index as int,
        to as int,
        capture as int,
    ));
}

/// Adds the captures of the pawn on `index` onto `to`.
fn push_capture(board: &Tablero, index: i16, to: i16, pseudo_moves: &mut Vec<Movim>)
    requires
        board@.sound(),
        on_board(index as int),
        -128 <= to < 256,
    ensures
        final(pseudo_moves)@ == old(pseudo_moves)@ + pawn_capture(
            board@,
            index as int,
            to as int,
        ),
{
    if en_tablero(to) {
        assert(-6 <= board@.squares[to as int] <= 6);
        let target: i16 = board.board_array[to as usize];
        if visto(target, board.to_move) < 0 {
            push_arrivals(board, index, to, target, pseudo_moves);
            return ;
        }
    }
    assert(pseudo_moves@ =~= old(pseudo_moves)@ + pawn_capture(board@, index as int, to as int));
}

/// The step ahead of a pawn, if the square is empty.
pub open spec fn pawn_push(p: Posicion, from: int) -> Seq<Movim> {
    let ahead = from + 16 * p.to_move;
    if on_board(ahead) && p.at(ahead) == 0 {
        pawn_arrivals(p, from, ahead, 0)
    } else {
        Seq::empty()
    }
}

/// The double step of a pawn from its home rank over two empty squares.
pub open spec fn pawn_double(p: Posicion, from: int) -> Seq<Movim> {
    let side = p.to_move;
    if rank_of(from) == (if side == 1 { 1int } else { 6int }) && p.at(from + 16 * side) == 0
        && p.at(from + 32 * side) == 0 {
        seq![move_of(p, W_PAWN * side, from, from + 32 * side, 0, ORDINARY_MOVE as int)]
    } else {
        Seq::empty()
    }
}

/// The capture en passant, if the en-passant square lies diagonally ahead.
pub open spec fn pawn_passing(p: Posicion, from: int) -> Seq<Movim> {
    let side = p.to_move;
    if p.en_passant != -1 && (from + 17 * side == p.en_passant || from + 15 * side
        == p.en_passant) {
        seq![move_of(p, W_PAWN * side, from, p.en_passant, B_PAWN * side, EN_PASSANT as int)]
    } else {
        Seq::empty()
    }
}

/// The moves of a pawn of the side to move on `from`: a step ahead onto an
/// empty square, the two captures diagonally ahead, the double step from its
/// home rank over two empty squares, and the capture en passant.
pub open spec fn pawn_moves(p: Posicion, from: int) -> Seq<Movim> {
    pawn_push(p, from) + pawn_capture(p, from, from + 15 * p.to_move) + pawn_capture(
        p,
        from,
        from + 17 * p.to_move,
    ) + pawn_double(p, from) + pawn_passing(p, from)
}

/// Adds the step ahead of the pawn on `index`.
fn push_ahead(board: &Tablero, index: i16, pseudo_moves: &mut Vec<Movim>)
    requires
        board@.sound(),
        on_board(index as int),
    ensures
        final(pseudo_moves)@ == old(pseudo_moves)@ + pawn_push(board@, index as int),
{
    let ahead: i16 = index + 16 * board.to_move;
    if en_tablero(ahead) && board.board_array[ahead as usize] == EMPTY_SQUARE {
        push_arrivals(board, index, ahead, 0, pseudo_moves);
    } else {
        assert(pseudo_moves@ =~= old(pseudo_moves)@ + pawn_push(board@, index as int));
    }
}

/// Adds the double step of the pawn on `index`.
fn push_double(board: &Tablero, index: i16, pseudo_moves: &mut Vec<Movim>)
    requires
        board@.sound(),
        on_board(index as int),
    ensures
        final(pseudo_moves)@ == old(pseudo_moves)@ + pawn_double(board@, index as int),
{
    let side: i16 = board.to_move;
    let home: i16 = if side == 1 {
        1
    } else {
        6
    };
    if fn_fila(index) == home {
        let one: i16 = index + 16 * side;
        let two: i16 = index + 32 * side;
        if board.board_array[one as usize] == EMPTY_SQUARE && board.board_array[two as usize]
            == EMPTY_SQUARE {
            pseudo_moves.push(nuevo(board, W_PAWN * side, index, two, 0, ORDINARY_MOVE));
        }
    }
    assert(pseudo_moves@ =~= old(pseudo_moves)@ + pawn_double(board@, index as int));
}

/// Adds the capture en passant of the pawn on `index`.
fn push_passing(board: &Tablero, index: i16, pseudo_moves: &mut Vec<Movim>)
    requires
        board@.sound(),
        on_board(index as int),
    ensures
        final(pseudo_moves)@ == old(pseudo_moves)@ + pawn_passing(board@, index as int),
{
    let side: i16 = board.to_move;
    if board.en_passant != -1 && (index + 17 * side == board.en_passant || index + 15 * side
        == board.en_passant) {
        pseudo_moves.push(
            nuevo(board, W_PAWN * side, index, board.en_passant, B_PAWN * side, EN_PASSANT),
        );
    }
    assert(pseudo_moves@ =~= old(pseudo_moves)@ + pawn_passing(board@, index as int));
}

/// Adds the moves of the pawn of the side to move on `index`.
pub fn gen_pawn(board: &Tablero, index: i16, pseudo_moves: &mut Vec<Movim>)
    requires
        board@.sound(),
        on_board(index as int),
    ensures
        final(pseudo_moves)@ == old(pseudo_moves)@ + pawn_moves(board@, index as int),
{
    let side: i16 = board.to_move;
    push_ahead(board, index, pseudo_moves);
    push_capture(board, index, index + 15 * side, pseudo_moves);
    push_capture(board, index, index + 17 * side, pseudo_moves);
    push_double(board, index, pseudo_moves);
    push_passing(board, index, pseudo_moves);
    assert(pseudo_moves@ =~= old(pseudo_moves)@ + pawn_moves(board@, index as int));
}

/// The short castle of the side to move, if it has the right and the
/// squares between king and rook are empty.
pub open spec fn castle_short(p: Posicion) -> Seq<Movim> {
    let home = if p.to_move == 1 {
        4int
    } else {
        116int
    };
    if p.may_castle_short(p.to_move) && p.at(home + 1) == 0 && p.at(home + 2) == 0 {
        seq![move_of(p, W_KING * p.to_move, home, home + 2, 0, SHORT_CASTLE as int)]
    } else {
        Seq::empty()
    }
}

/// The long castle of the side to move, under the same conditions.
pub open spec fn castle_long(p: Posicion) -> Seq<Movim> {
    let home = if p.to_move == 1 {
        4int
    } else {
        116int
    };
    if p.may_castle_long(p.to_move) && p.at(home - 1) == 0 && p.at(home - 2) == 0 && p.at(
        home - 3,
    ) == 0 {
        seq![move_of(p, W_KING * p.to_move, home, home - 2, 0, LONG_CASTLE as int)]
    } else {
        Seq::empty()
    }
}

/// The castles of the side to move, the short one first. Whether the king
/// is or would pass in check is not looked at here.
pub open spec fn castling_moves(p: Posicion) -> Seq<Movim> {
    castle_short(p) + castle_long(p)
}

/// Adds the castles of the side to move.
pub fn gen_castling(board: &Tablero, pseudo_moves: &mut Vec<Movim>)
    requires
        board@.sound(),
    ensures
        final(pseudo_moves)@ == old(pseudo_moves)@ + castling_moves(board@),
{
    let ghost inicio = pseudo_moves@;
    let (rights, home, king): (i16, i16, i16) = if board.to_move == 1 {
        (board.white_castle, 4, W_KING)
    } else {
        (board.black_castle, 116, B_KING)
    };
    if rights == CASTLE_SHORT || rights == CASTLE_BOTH {
        if board.board_array[(home + 1) as usize] == EMPTY_SQUARE && board.board_array[(home
            + 2) as usize] == EMPTY_SQUARE {
            pseudo_moves.push(nuevo(board, king, home, home + 2, 0, SHORT_CASTLE));
        }
    }
    if rights == CASTLE_LONG || rights == CASTLE_BOTH {
        if board.board_array[(home - 1) as usize] == EMPTY_SQUARE && board.board_array[(home
            - 2) as usize] == EMPTY_SQUARE && board.board_array[(home - 3) as usize]
            == EMPTY_SQUARE {
            pseudo_moves.push(nuevo(board, king, home, home - 2, 0, LONG_CASTLE));
        }
    }
    assert(pseudo_moves@ =~= inicio + castling_moves(board@));
}

/// The moves of whatever stands on `sq`, if it belongs to the side to move.
pub open spec fn square_moves(p: Posicion, sq: int) -> Seq<Movim> {
    let piece = seen_by(p.at(sq), p.to_move);
    if !on_board(sq) {
        Seq::empty()
    } else if piece == W_QUEEN {
        piece_rays(p, sq, QUEEN_DELTA@, true)
    } else if piece == W_ROOK {
        piece_rays(p, sq, ROOK_DELTA@, true)
    } else if piece == W_BISHOP {
        piece_rays(p, sq, BISHOP_DELTA@, true)
    } else if piece == W_KNIGHT {
        piece_rays(p, sq, KNIGHT_DELTA@, false)
    } else if piece == W_KING {
        piece_rays(p, sq, KING_DELTA@, false) + castling_moves(p)
    } else if piece == W_PAWN {
        pawn_moves(p, sq)
    } else {
        Seq::empty()
    }
}

/// The moves of the pieces on the squares below `n`, square by square.
pub open spec fn moves_upto(p: Posicion, n: int) -> Seq<Movim>
    decreases n,
{
    if n <= 0 {
        Seq::empty()
    } else {
        moves_upto(p, n - 1) + square_moves(p, n - 1)
    }
}

/// All moves that the pieces of the side to move can make by their ways of
/// moving, from a1 along the ranks to h8, whether or not they leave the king
/// attacked.
pub open spec fn pseudo_moves(p: Posicion) -> Seq<Movim> {
    moves_upto(p, 128)
}

/// Adds the moves of the piece on `index`.
fn gen_square(board: &Tablero, index: i16, pseudo_moves: &mut Vec<Movim>)
    requires
        board@.sound(),
        on_board(index as int),
    ensures
        final(pseudo_moves)@ == old(pseudo_moves)@ + square_moves(board@, index as int),
{
    assert(-6 <= board@.squares[index as int] <= 6);
    let ghost inicio = pseudo_moves@;
    let piece: i16 = visto(board.board_array[index as usize], board.to_move);
    if piece == W_QUEEN {
        gen_moves(board, index, QUEEN_DELTA, true, pseudo_moves);
    } else if piece == W_ROOK {
        gen_moves(board, index, ROOK_DELTA, true, pseudo_moves);
    } else if piece == W_BISHOP {
        gen_moves(board, index, BISHOP_DELTA, true, pseudo_moves);
    } else if piece == W_KNIGHT {
        gen_moves(board, index, KNIGHT_DELTA, false, pseudo_moves);
    } else if piece == W_KING {
        gen_moves(board, index, KING_DELTA, false, pseudo_moves);
        gen_castling(board, pseudo_moves);
        assert(pseudo_moves@ =~= inicio + square_moves(board@, index as int));
    } else if piece == W_PAWN {
        gen_pawn(board, index, pseudo_moves);
    } else {
        assert(pseudo_moves@ =~= inicio + square_moves(board@, index as int));
    }
}

/// Adds to `pseudo_moves` all moves of the side to move.
pub fn generate_pseudo_moves(board: &Tablero, pseudo_moves: &mut Vec<Movim>)
    requires
        board@.sound(),
    ensures
        final(pseudo_moves)@ == old(pseudo_moves)@ + crate::genera::pseudo_moves(board@),
{
    let ghost inicio = pseudo_moves@;
    let mut index: i16 = 0;
    assert(pseudo_moves@ =~= inicio + moves_upto(board@, 0));
    while index < 120
        invariant
            board@.sound(),
            0 <= index <= 128,
            index % 16 <= 8,
            pseudo_moves@ == inicio + moves_upto(board@, index as int),
        decreases 128 - index,
    {
        if en_tablero(index) {
            gen_square(board, index, pseudo_moves);
            assert(pseudo_moves@ =~= inicio + moves_upto(board@, index + 1));
        } else {
            proof {
                lemma_moves_off_board(board@, index as int, index + 8);
            }
            index += 7;
        }
        index += 1;
    }
    proof {
        lemma_moves_off_board(board@, index as int, 128);
    }
}

/// Squares beside the board add no moves.
proof fn lemma_moves_off_board(p: Posicion, from: int, to: int)
    requires
        0 <= from <= to,
        forall|s: int| from <= s < to ==> !on_board(s),
    ensures
        moves_upto(p, to) == moves_upto(p, from),
    decreases to - from,
{
    if from < to {
        lemma_moves_off_board(p, from, to - 1);
        assert(square_moves(p, to - 1) =~= Seq::empty());
        assert(moves_upto(p, to) =~= moves_upto(p, to - 1));
    }
}

/// Moves that fit, put one list behind another, fit.
proof fn lemma_fit_append(p: Posicion, a: Seq<Movim>, b: Seq<Movim>)
    requires
        all_fit(p, a, 0),
        all_fit(p, b, 0),
    ensures
        all_fit(p, a + b, 0),
{
    assert forall|i: int| 0 <= i < (a + b).len() implies move_fits(p, #[trigger] (a + b)[i]) by {
        if i < a.len() {
            assert((a + b)[i] == a[i]);
        } else {
            assert((a + b)[i] == b[i - a.len()]);
        }
    }
}

/// What the ray walker needs of the piece on `from`: it belongs to the side
/// to move and is no pawn.
pub open spec fn walker_on(p: Posicion, from: int) -> bool {
    &&& on_board(from)
    &&& seen_by(p.at(from), p.to_move) > 0
    &&& p.at(from) != W_PAWN
    &&& p.at(from) != B_PAWN
}

/// Whether a step of a step set suits a piece and the way it is walked: a
/// knight jumps and a king steps once, and rook, bishop and queen slide
/// along their lines. An unused step suits the rook and the bishop.
pub open spec fn walks(piece: int, d: int, sliding: bool) -> bool {
    let kind = abs_int(piece);
    let straight = d == 1 || d == -1 || d == 16 || d == -16;
    let diagonal = d == 15 || d == -15 || d == 17 || d == -17;
    if kind == 5 {
        !sliding && (d == 18 || d == 33 || d == 31 || d == 14 || d == -31 || d == -33 || d == -18
            || d == -14)
    } else if kind == 1 {
        !sliding && (straight || diagonal)
    } else if kind == 3 {
        sliding && (d == 0 || straight)
    } else if kind == 4 {
        sliding && (d == 0 || diagonal)
    } else if kind == 2 {
        sliding && (straight || diagonal)
    } else {
        false
    }
}

proof fn lemma_ray_fits(p: Posicion, from: int, d: int, sliding: bool, cur: int, k: int)
    requires
        p.wf(),
        walker_on(p, from),
        walks(p.at(from), d, sliding),
        1 <= k,
        !sliding ==> k == 1,
        cur == ray_square(from, d, k),
        forall|j: int|
            0 < j < k ==> on_board(#[trigger] ray_square(from, d, j)) && p.squares[ray_square(
                from,
                d,
                j,
            )] == 0,
    ensures
        all_fit(p, ray_moves(p, from, d, sliding, cur), 0),
    decreases ray_room(cur, d),
{
    if !on_board(cur) || d == 0 || d < -33 || d > 33 {
    } else {
        assert(-6 <= p.squares[from] <= 6);
        assert(-6 <= p.squares[cur] <= 6);
        assert(ray_square(from, d, 0) == from) by (nonlinear_arith);
        assert(ray_square(from, d, 1) == from + d) by (nonlinear_arith);
        assert(ray_square(from, d, k + 1) == cur + d) by (nonlinear_arith)
            requires
                cur == ray_square(from, d, k),
        ;
        assert forall|j: int| 0 <= j <= k implies on_board(#[trigger] ray_square(from, d, j)) by {}
        if abs_int(p.at(from)) != 5 {
            lemma_line(from, d, k);
        }
        assert(cur != from) by {
            if abs_int(p.at(from)) != 5 {
                assert(crate::ataque::distance(cur - from) == k);
            }
        }
        if p.at(cur) == 0 {
            let m = move_of(p, p.at(from), from, cur, 0, ORDINARY_MOVE as int);
            assert(m.prev_pos@ =~= crate::jugada::snapshot(p));
            assert(crate::jugada::goes_as_piece(p, m));
            assert(move_fits(p, m));
            if sliding {
                lemma_ray_fits(p, from, d, sliding, cur + d, k + 1);
                lemma_fit_append(p, seq![m], ray_moves(p, from, d, sliding, cur + d));
            }
        } else if opposed(p.at(from), p.at(cur)) {
            let m = move_of(p, p.at(from), from, cur, p.at(cur), ORDINARY_MOVE as int);
            assert(m.prev_pos@ =~= crate::jugada::snapshot(p));
            assert(crate::jugada::goes_as_piece(p, m));
            assert(move_fits(p, m));
        }
    }
}

proof fn lemma_rays_fit(p: Posicion, from: int, deltas: Seq<i16>, sliding: bool, n: int)
    requires
        p.wf(),
        walker_on(p, from),
        0 <= n <= deltas.len(),
        forall|i: int| 0 <= i < deltas.len() ==> walks(p.at(from), #[trigger] deltas[i] as int, sliding),
    ensures
        all_fit(p, rays_upto(p, from, deltas, sliding, n), 0),
    decreases n,
{
    if n > 0 {
        lemma_rays_fit(p, from, deltas, sliding, n - 1);
        let d = deltas[n - 1] as int;
        assert(ray_square(from, d, 1) == from + d) by (nonlinear_arith);
        lemma_ray_fits(p, from, d, sliding, from + d, 1);
        lemma_fit_append(
            p,
            rays_upto(p, from, deltas, sliding, n - 1),
            ray_moves(p, from, deltas[n - 1] as int, sliding, from + deltas[n - 1]),
        );
    }
}

proof fn lemma_arrivals_fit(p: Posicion, from: int, to: int, capture: int)
    requires
        p.wf(),
        on_board(from),
        on_board(to),
        p.at(from) == W_PAWN * p.to_move,
        capture == p.at(to),
        seen_by(capture, p.to_move) <= 0,
        if capture == 0 {
            to == from + 16 * p.to_move
        } else {
            to == from + 15 * p.to_move || to == from + 17 * p.to_move
        },
    ensures
        all_fit(p, pawn_arrivals(p, from, to, capture), 0),
{
    let s = pawn_arrivals(p, from, to, capture);
    assert(-6 <= p.squares[to] <= 6);
    assert forall|i: int| 0 <= i < s.len() implies move_fits(p, #[trigger] s[i]) by {
        assert(s[i].prev_pos@ =~= crate::jugada::snapshot(p));
    }
}

proof fn lemma_pawn_fits(p: Posicion, from: int)
    requires
        p.wf(),
        on_board(from),
        p.at(from) == W_PAWN * p.to_move,
    ensures
        all_fit(p, pawn_moves(p, from), 0),
{
    let side = p.to_move;
    let a = pawn_push(p, from);
    let b = pawn_capture(p, from, from + 15 * side);
    let c = pawn_capture(p, from, from + 17 * side);
    let d = pawn_double(p, from);
    let e = pawn_passing(p, from);
    if on_board(from + 16 * side) && p.at(from + 16 * side) == 0 {
        lemma_arrivals_fit(p, from, from + 16 * side, 0);
    }
    if on_board(from + 15 * side) && seen_by(p.at(from + 15 * side), side) < 0 {
        lemma_arrivals_fit(p, from, from + 15 * side, p.at(from + 15 * side));
    }
    if on_board(from + 17 * side) && seen_by(p.at(from + 17 * side), side) < 0 {
        lemma_arrivals_fit(p, from, from + 17 * side, p.at(from + 17 * side));
    }
    assert(all_fit(p, d, 0)) by {
        if d.len() > 0 {
            assert(d[0].prev_pos@ =~= crate::jugada::snapshot(p));
            assert(move_fits(p, d[0]));
        }
    }
    assert(all_fit(p, e, 0)) by {
        if e.len() > 0 {
            assert(e[0].prev_pos@ =~= crate::jugada::snapshot(p));
            assert(move_fits(p, e[0]));
        }
    }
    lemma_fit_append(p, a, b);
    lemma_fit_append(p, a + b, c);
    lemma_fit_append(p, a + b + c, d);
    lemma_fit_append(p, a + b + c + d, e);
}

proof fn lemma_castling_fits(p: Posicion)
    requires
        p.wf(),
    ensures
        all_fit(p, castling_moves(p), 0),
{
    let a = castle_short(p);
    let b = castle_long(p);
    assert(all_fit(p, a, 0)) by {
        if a.len() > 0 {
            assert(a[0].prev_pos@ =~= crate::jugada::snapshot(p));
            assert(move_fits(p, a[0]));
        }
    }
    assert(all_fit(p, b, 0)) by {
        if b.len() > 0 {
            assert(b[0].prev_pos@ =~= crate::jugada::snapshot(p));
            assert(move_fits(p, b[0]));
        }
    }
    lemma_fit_append(p, a, b);
}

proof fn lemma_square_fits(p: Posicion, sq: int)
    requires
        p.wf(),
    ensures
        all_fit(p, square_moves(p, sq), 0),
{
    let piece = seen_by(p.at(sq), p.to_move);
    if !on_board(sq) {
    } else if piece == W_QUEEN {
        lemma_rays_fit(p, sq, QUEEN_DELTA@, true, 8);
    } else if piece == W_ROOK {
        lemma_rays_fit(p, sq, ROOK_DELTA@, true, 8);
    } else if piece == W_BISHOP {
        lemma_rays_fit(p, sq, BISHOP_DELTA@, true, 8);
    } else if piece == W_KNIGHT {
        lemma_rays_fit(p, sq, KNIGHT_DELTA@, false, 8);
    } else if piece == W_KING {
        lemma_rays_fit(p, sq, KING_DELTA@, false, 8);
        lemma_castling_fits(p);
        lemma_fit_append(p, piece_rays(p, sq, KING_DELTA@, false), castling_moves(p));
    } else if piece == W_PAWN {
        lemma_pawn_fits(p, sq);
    }
}

proof fn lemma_moves_upto_fit(p: Posicion, n: int)
    requires
        p.wf(),
    ensures
        all_fit(p, moves_upto(p, n), 0),
    decreases n,
{
    if n > 0 {
        lemma_moves_upto_fit(p, n - 1);
        lemma_square_fits(p, n - 1);
        lemma_fit_append(p, moves_upto(p, n - 1), square_moves(p, n - 1));
    }
}

/// On a position fit for play, every move that the generator gives fits
/// the position.
pub proof fn lemma_pseudo_moves_fit(p: Posicion)
    requires
        p.wf(),
    ensures
        all_fit(p, pseudo_moves(p), 0),
{
    lemma_moves_upto_fit(p, 128);
}

/// The square of the king of the side to move.
pub open spec fn king_square(p: Posicion) -> int {
    choose|sq: int| is_king_square(p, p.to_move, sq)
}

/// Whether move `m` leaves the mover's king, which stood on `king`, out of
/// the other side's attacks: a castling king must not stand, pass or arrive
/// on an attacked square, a king that moves must not arrive on one, and
/// after any other move the king's square must not be attacked.
pub open spec fn king_safe(p: Posicion, m: Movim, king: int) -> bool {
    let q = make_spec(p, m);
    let from = m.from_index as int;
    if m.move_type == SHORT_CASTLE {
        !attacked(q, from) && !attacked(q, from + 1) && !attacked(q, from + 2)
    } else if m.move_type == LONG_CASTLE {
        !attacked(q, from) && !attacked(q, from - 1) && !attacked(q, from - 2)
    } else if m.piece_moving == W_KING || m.piece_moving == B_KING {
        !attacked(q, m.to_index as int)
    } else {
        !attacked(q, king)
    }
}

/// The moves of `moves` that leave the king of the side to move safe; all
/// of them where that side has no king.
pub open spec fn filtered(p: Posicion, moves: Seq<Movim>) -> Seq<Movim> {
    if has_king(p, p.to_move) {
        moves.filter(|m: Movim| king_safe(p, m, king_square(p)))
    } else {
        moves
    }
}

/// The legal moves of the side to move, in the order of the generator.
pub open spec fn legal_moves(p: Posicion) -> Seq<Movim> {
    filtered(p, pseudo_moves(p))
}

/// Keeps of `pseudo_moves` the moves after which the mover's king is not
/// attacked. Each move is made on the board, tested and taken back.
pub fn filter_moves(board: &mut Tablero, pseudo_moves: Vec<Movim>) -> (legales: Vec<Movim>)
    requires
        old(board)@.wf(),
        all_fit(old(board)@, pseudo_moves@, 0),
    ensures
        legales@ == filtered(old(board)@, pseudo_moves@),
        all_fit(old(board)@, legales@, 0),
        final(board)@ == old(board)@,
        final(board).history == old(board).history,
{
    let ghost p = board@;
    let king_square: i16 = crate::ataque::busca_rey(board, board.to_move);
    if king_square == 1024 {
        return pseudo_moves;
    }
    assert(is_king_square(p, p.to_move, king_square as int));
    assert(king_square as int == crate::genera::king_square(p));
    let ghost pred = |m: Movim| king_safe(p, m, crate::genera::king_square(p));
    let mut filtered_moves: Vec<Movim> = Vec::new();
    let mut i: usize = 0;
    assert(pseudo_moves@.take(0).filter(pred) =~= Seq::<Movim>::empty());
    while i < pseudo_moves.len()
        invariant
            0 <= i <= pseudo_moves.len(),
            board@ == p,
            p.wf(),
            board.history == old(board).history,
            all_fit(p, pseudo_moves@, 0),
            on_board(king_square as int),
            king_square as int == crate::genera::king_square(p),
            pred == (|m: Movim| king_safe(p, m, crate::genera::king_square(p))),
            filtered_moves@ == pseudo_moves@.take(i as int).filter(pred),
            all_fit(p, filtered_moves@, 0),
        decreases pseudo_moves.len() - i,
    {
        let current_move = pseudo_moves[i];
        proof {
            assert(move_fits(p, current_move));
            lemma_make_wf(p, current_move);
            lemma_unmake_make(p, current_move);
        }
        make_movim(board, current_move);
        let from: i16 = current_move.from_index as i16;
        let safe = if current_move.move_type == SHORT_CASTLE {
            !es_atacada(board, from) && !es_atacada(board, from + 1) && !es_atacada(
                board,
                from + 2,
            )
        } else if current_move.move_type == LONG_CASTLE {
            !es_atacada(board, from) && !es_atacada(board, from - 1) && !es_atacada(
                board,
                from - 2,
            )
        } else if current_move.piece_moving == W_KING || current_move.piece_moving == B_KING {
            !es_atacada(board, current_move.to_index as i16)
        } else {
            !es_atacada(board, king_square)
        };
        assert(safe == pred(current_move));
        unmake_movim(board, current_move);
        proof {
            assert(pseudo_moves@.take(i + 1) =~= pseudo_moves@.take(i as int).push(current_move));
            pseudo_moves@.take(i as int).lemma_filter_push(current_move, pred);
        }
        if safe {
            filtered_moves.push(current_move);
        }
        i += 1;
    }
    assert(pseudo_moves@.take(pseudo_moves.len() as int) =~= pseudo_moves@);
    filtered_moves
}

/// The legal moves of the side to move.
pub fn generate_moves(board: &mut Tablero) -> (legales: Vec<Movim>)
    requires
        old(board)@.wf(),
    ensures
        legales@ == legal_moves(old(board)@),
        all_fit(old(board)@, legales@, 0),
        final(board)@ == old(board)@,
        final(board).history == old(board).history,
{
    let mut pseudo_moves: Vec<Movim> = Vec::new();
    generate_pseudo_moves(board, &mut pseudo_moves);
    proof {
        lemma_pseudo_moves_fit(board@);
        assert(pseudo_moves@ =~= crate::genera::pseudo_moves(board@));
    }
    filter_moves(board, pseudo_moves)
}

/// The legal moves are among the moves that the generator gives, and so fit
/// the position.
pub proof fn lemma_legal_fits(p: Posicion, m: Movim)
    requires
        p.wf(),
        legal_moves(p).contains(m),
    ensures
        move_fits(p, m),
{
    lemma_pseudo_moves_fit(p);
    let pseudo = pseudo_moves(p);
    if has_king(p, p.to_move) {
        pseudo.lemma_filter_contains_rev(
            |m: Movim| king_safe(p, m, king_square(p)),
            m,
        );
    }
    let k = choose|k: int| 0 <= k < pseudo.len() && pseudo[k] == m;
    assert(move_fits(p, pseudo[k]));
}

/// The side has a king, and one only.
pub open spec fn one_king(p: Posicion, side: int) -> bool {
    &&& has_king(p, side)
    &&& forall|a: int, b: int|
        on_board(a) && on_board(b) && #[trigger] p.at(a) == W_KING * side && #[trigger] p.at(b)
            == W_KING * side ==> a == b
}

/// After a legal move of a side that has one king, no piece of the other
/// side attacks that king.
pub proof fn lemma_legal_keeps_king_safe(p: Posicion, m: Movim)
    requires
        p.wf(),
        one_king(p, p.to_move),
        legal_moves(p).contains(m),
    ensures
        !crate::ataque::in_check(make_spec(p, m).flipped()),
{
    let side = p.to_move;
    let q = make_spec(p, m);
    let king = king_square(p);
    let pred = |m: Movim| king_safe(p, m, king_square(p));
    lemma_legal_fits(p, m);
    let i = choose|i: int| 0 <= i < legal_moves(p).len() && legal_moves(p)[i] == m;
    pseudo_moves(p).lemma_filter_pred(pred, i);
    assert(king_safe(p, m, king));
    let only = choose|sq: int| on_board(sq) && p.at(sq) == W_KING * side;
    assert(is_king_square(p, side, only));
    assert(is_king_square(p, side, king));
    assert(q.flipped().flipped() == q);
    let moved = m.piece_moving == W_KING || m.piece_moving == B_KING;
    let now = if moved {
        m.to_index as int
    } else {
        king
    };
    assert(moved ==> m.from_index == king);
    assert forall|sq: int| on_board(sq) && q.at(sq) == W_KING * side implies sq == now by {
        if sq != now {
            assert(p.at(sq) == W_KING * side || sq == m.to_index);
        }
    }
    assert(!attacked(q, now));
}

} // verus!
