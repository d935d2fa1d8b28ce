//! Making a move on the board and taking it back.

use vstd::prelude::*;
use crate::defs::{
    abs_int, attack_class, attack_lookup, on_board, rank_of, seen_by, ATTACK_KQB_BP,
    ATTACK_KQB_WP, ATTACK_KQR, ATTACK_N, ATTACK_NONE, ATTACK_QB, ATTACK_QR, B_KING, B_PAWN, B_ROOK, CASTLE_BOTH, CASTLE_LONG, CASTLE_NONE,
    CASTLE_SHORT, EMPTY_SQUARE, EN_PASSANT, LONG_CASTLE, ORDINARY_MOVE, PROMOTION_BISHOP,
    PROMOTION_KNIGHT, PROMOTION_QUEEN, PROMOTION_ROOK, SHORT_CASTLE, W_BISHOP, W_KING, W_KNIGHT,
    W_PAWN, W_QUEEN, W_ROOK,
};
use crate::ataque::{on_a_line, path_clear, traverse_delta};
use crate::tablero::{Movim, Posicion, Tablero};

verus! {

/// What a move keeps of the position it is made from.
pub open spec fn snapshot(p: Posicion) -> Seq<i16> {
    seq![
        p.en_passant as i16,
        p.white_castle as i16,
        p.black_castle as i16,
        p.moves_fifty as i16,
    ]
}

/// The squares a move names lie on the board, and an en-passant capture
/// leaves room for the captured pawn's square on either side.
pub open spec fn move_shape(m: Movim) -> bool {
    &&& on_board(m.from_index as int)
    &&& on_board(m.to_index as int)
    &&& m.move_type == EN_PASSANT ==> 16 <= m.to_index < 112
}

/// Castling rights of one side after a move: none without the king at home,
/// and no right on a wing whose rook is not in its corner.
pub open spec fn narrowed(rights: int, king_home: bool, long_rook: bool, short_rook: bool) -> int {
    let r1 = if king_home {
        rights
    } else {
        CASTLE_NONE as int
    };
    let r2 = if long_rook {
        r1
    } else if r1 == CASTLE_BOTH {
        CASTLE_SHORT as int
    } else if r1 == CASTLE_LONG {
        CASTLE_NONE as int
    } else {
        r1
    };
    if short_rook {
        r2
    } else if r2 == CASTLE_BOTH {
        CASTLE_LONG as int
    } else if r2 == CASTLE_SHORT {
        CASTLE_NONE as int
    } else {
        r2
    }
}

/// The piece a promotion of the given kind puts on the board for `side`, or
/// nothing for another kind of move.
pub open spec fn promoted_piece(kind: int, side: int) -> Option<int> {
    if kind == PROMOTION_QUEEN {
        Some(W_QUEEN * side)
    } else if kind == PROMOTION_ROOK {
        Some(W_ROOK * side)
    } else if kind == PROMOTION_BISHOP {
        Some(W_BISHOP * side)
    } else if kind == PROMOTION_KNIGHT {
        Some(W_KNIGHT * side)
    } else {
        None
    }
}

/// The board after the pieces of move `m` have been moved for `side`.
pub open spec fn moved_squares(s: Seq<i16>, side: int, m: Movim) -> Seq<i16> {
    let from = m.from_index as int;
    let to = m.to_index as int;
    if m.move_type == ORDINARY_MOVE {
        s.update(to, m.piece_moving).update(from, EMPTY_SQUARE)
    } else if m.move_type == SHORT_CASTLE {
        if m.piece_moving == W_KING {
            s.update(7, EMPTY_SQUARE).update(4, EMPTY_SQUARE).update(6, W_KING).update(5, W_ROOK)
        } else {
            s.update(119, EMPTY_SQUARE).update(116, EMPTY_SQUARE).update(118, B_KING).update(
                117,
                B_ROOK,
            )
        }
    } else if m.move_type == LONG_CASTLE {
        if m.piece_moving == W_KING {
            s.update(0, EMPTY_SQUARE).update(4, EMPTY_SQUARE).update(2, W_KING).update(3, W_ROOK)
        } else {
            s.update(112, EMPTY_SQUARE).update(116, EMPTY_SQUARE).update(114, B_KING).update(
                115,
                B_ROOK,
            )
        }
    } else if m.move_type == EN_PASSANT {
        let taken = if side == 1 {
            to - 16
        } else {
            to + 16
        };
        s.update(taken, EMPTY_SQUARE).update(to, m.piece_moving).update(from, EMPTY_SQUARE)
    } else {
        match promoted_piece(m.move_type as int, side) {
            Some(piece) => s.update(to, piece as i16).update(from, EMPTY_SQUARE),
            None => s.update(from, EMPTY_SQUARE),
        }
    }
}

/// Whether `m` is a pawn's double step.
pub open spec fn is_double_push(m: Movim) -> bool {
    &&& m.move_type == ORDINARY_MOVE
    &&& (m.piece_moving == W_PAWN || m.piece_moving == B_PAWN)
    &&& abs_int(m.to_index - m.from_index) == 32
}

/// The position after move `m`.
///
/// The side to move changes; the halfmove clock starts again after a pawn
/// move or a capture and is counted up otherwise; the move number is counted
/// up after a black piece has moved; the en-passant square is the one a pawn
/// passed in a double step, or none; a castle takes all rights of its side;
/// and the rights of both sides are narrowed to the kings and rooks that are
/// still at home.
pub open spec fn make_spec(p: Posicion, m: Movim) -> Posicion {
    let squares = moved_squares(p.squares, p.to_move, m);
    let castles = m.move_type == SHORT_CASTLE || m.move_type == LONG_CASTLE;
    let white = if castles && m.piece_moving == W_KING {
        CASTLE_NONE as int
    } else {
        p.white_castle
    };
    let black = if castles && m.piece_moving != W_KING {
        CASTLE_NONE as int
    } else {
        p.black_castle
    };
    Posicion {
        squares,
        to_move: -p.to_move,
        en_passant: if is_double_push(m) {
            (m.from_index + m.to_index) / 2
        } else {
            -1
        },
        white_castle: narrowed(
            white,
            squares[4] == W_KING,
            squares[0] == W_ROOK,
            squares[7] == W_ROOK,
        ),
        black_castle: narrowed(
            black,
            squares[116] == B_KING,
            squares[112] == B_ROOK,
            squares[119] == B_ROOK,
        ),
        moves_fifty: if m.piece_moving != W_PAWN && m.piece_moving != B_PAWN && m.capture == 0 {
            p.moves_fifty + 1
        } else {
            0
        },
        moves_full: if m.piece_moving < 0 {
            p.moves_full + 1
        } else {
            p.moves_full
        },
    }
}

/// The board after the pieces of move `m` have been put back.
pub open spec fn restored_squares(s: Seq<i16>, m: Movim) -> Seq<i16> {
    let from = m.from_index as int;
    let to = m.to_index as int;
    if m.move_type == SHORT_CASTLE {
        if m.piece_moving == W_KING {
            s.update(5, EMPTY_SQUARE).update(6, EMPTY_SQUARE).update(4, W_KING).update(7, W_ROOK)
        } else if m.piece_moving == B_KING {
            s.update(117, EMPTY_SQUARE).update(118, EMPTY_SQUARE).update(116, B_KING).update(
                119,
                B_ROOK,
            )
        } else {
            s
        }
    } else if m.move_type == LONG_CASTLE {
        if m.piece_moving == W_KING {
            s.update(2, EMPTY_SQUARE).update(3, EMPTY_SQUARE).update(4, W_KING).update(0, W_ROOK)
        } else if m.piece_moving == B_KING {
            s.update(114, EMPTY_SQUARE).update(115, EMPTY_SQUARE).update(116, B_KING).update(
                112,
                B_ROOK,
            )
        } else {
            s
        }
    } else if m.move_type == EN_PASSANT {
        let s1 = s.update(from, m.piece_moving).update(to, EMPTY_SQUARE);
        if m.piece_moving == W_PAWN {
            s1.update(to - 16, B_PAWN)
        } else {
            s1.update(to + 16, W_PAWN)
        }
    } else {
        s.update(from, m.piece_moving).update(to, m.capture)
    }
}

/// The position before move `m`, from the position after it: the move's
/// snapshot gives back the en-passant square, the castling rights and the
/// halfmove clock, the side to move changes back, the move number goes back
/// after a move of black, and the pieces return.
pub open spec fn unmake_spec(p: Posicion, m: Movim) -> Posicion {
    Posicion {
        squares: restored_squares(p.squares, m),
        to_move: -p.to_move,
        en_passant: m.prev_pos@[0] as int,
        white_castle: m.prev_pos@[1] as int,
        black_castle: m.prev_pos@[2] as int,
        moves_fifty: m.prev_pos@[3] as int,
        moves_full: if m.piece_moving < 0 {
            p.moves_full - 1
        } else {
            p.moves_full
        },
    }
}

/// Whether a square difference is one step of a king.
pub open spec fn is_king_step(diff: int) -> bool {
    let class = attack_class(diff);
    class == ATTACK_KQR || class == ATTACK_KQB_WP || class == ATTACK_KQB_BP
}

/// Whether move `m`, if it is no castle and no capture en passant, goes as
/// its piece moves.
///
/// A pawn goes one step ahead, or two from its home rank, onto an empty
/// square, or captures one step diagonally ahead; it is promoted exactly
/// when it leaves the rank before the last. A knight jumps, a king goes one
/// step, and rook, bishop and queen go along their lines over empty squares.
pub open spec fn goes_as_piece(p: Posicion, m: Movim) -> bool {
    let from = m.from_index as int;
    let to = m.to_index as int;
    let side = p.to_move;
    let class = attack_class(to - from);
    let kind = abs_int(m.piece_moving as int);
    if m.move_type == SHORT_CASTLE || m.move_type == LONG_CASTLE || m.move_type == EN_PASSANT {
        true
    } else if kind == 6 {
        &&& (m.move_type >= PROMOTION_QUEEN) == (rank_of(from) == (if side == 1 {
            6int
        } else {
            1int
        }))
        &&& if m.capture == 0 {
            to == from + 16 * side || is_double_push(m)
        } else {
            to == from + 15 * side || to == from + 17 * side
        }
    } else if kind == 5 {
        class == ATTACK_N
    } else if kind == 1 {
        is_king_step(to - from)
    } else if kind == 3 {
        (class == ATTACK_KQR || class == ATTACK_QR) && path_clear(p, from, to)
    } else if kind == 4 {
        (class == ATTACK_KQB_WP || class == ATTACK_KQB_BP || class == ATTACK_QB) && path_clear(
            p,
            from,
            to,
        )
    } else {
        on_a_line(class) && path_clear(p, from, to)
    }
}

/// Move `m` is one that the rules of movement give in position `p`: its
/// piece stands on its origin and belongs to the side to move, it captures
/// what stands on its destination, which is nothing or an enemy, its
/// snapshot is of `p`, what its kind asks for holds, and it goes as its
/// piece moves.
pub open spec fn move_fits(p: Posicion, m: Movim) -> bool {
    let from = m.from_index as int;
    let to = m.to_index as int;
    let side = p.to_move;
    &&& on_board(from)
    &&& on_board(to)
    &&& from != to
    &&& m.piece_moving == p.at(from)
    &&& seen_by(m.piece_moving as int, side) > 0
    &&& m.prev_pos@ == snapshot(p)
    &&& ORDINARY_MOVE <= m.move_type <= PROMOTION_KNIGHT
    &&& m.move_type == SHORT_CASTLE ==> {
        &&& m.piece_moving == W_KING * side
        &&& from == (if side == 1 { 4int } else { 116int })
        &&& to == from + 2
        &&& m.capture == 0
        &&& p.may_castle_short(side)
        &&& p.at(from + 1) == 0
        &&& p.at(from + 2) == 0
    }
    &&& m.move_type == LONG_CASTLE ==> {
        &&& m.piece_moving == W_KING * side
        &&& from == (if side == 1 { 4int } else { 116int })
        &&& to == from - 2
        &&& m.capture == 0
        &&& p.may_castle_long(side)
        &&& p.at(from - 1) == 0
        &&& p.at(from - 2) == 0
        &&& p.at(from - 3) == 0
    }
    &&& m.move_type == EN_PASSANT ==> {
        &&& m.piece_moving == W_PAWN * side
        &&& to == p.en_passant
        &&& m.capture == B_PAWN * side
        &&& (to == from + 16 * side + 1 || to == from + 16 * side - 1)
    }
    &&& (m.move_type != SHORT_CASTLE && m.move_type != LONG_CASTLE && m.move_type != EN_PASSANT)
        ==> {
        &&& m.capture == p.at(to)
        &&& seen_by(m.capture as int, side) <= 0
    }
    &&& m.move_type >= PROMOTION_QUEEN ==> m.piece_moving == W_PAWN * side
    &&& is_double_push(m) ==> {
        &&& rank_of(from) == (if side == 1 { 1int } else { 6int })
        &&& to == from + 32 * side
        &&& p.at(from + 16 * side) == 0
        &&& m.capture == 0
    }
    &&& goes_as_piece(p, m)
}

/// Taking back a move that was just made gives the position it was made
/// from, in every field.
pub proof fn lemma_unmake_make(p: Posicion, m: Movim)
    requires
        p.wf(),
        move_fits(p, m),
    ensures
        unmake_spec(make_spec(p, m), m) == p,
{
    let q = unmake_spec(make_spec(p, m), m);
    assert(q.squares =~= p.squares);
}

/// A move that fits leaves a sound position whose rights agree with its
/// pieces; it is fit for play as long as its counters have room.
pub proof fn lemma_make_wf(p: Posicion, m: Movim)
    requires
        p.wf(),
        move_fits(p, m),
    ensures
        move_shape(m),
        make_spec(p, m).sound(),
        make_spec(p, m).coherent(),
        unmake_ready(make_spec(p, m), m),
        p.moves_fifty + 1 < i16::MAX && p.moves_full + 1 < i16::MAX ==> make_spec(p, m).wf(),
{
}

/// Whether move `m` touches square `sq`, as its origin or its destination.
pub open spec fn touches(m: Movim, sq: int) -> bool {
    m.from_index == sq || m.to_index == sq
}

/// A side keeps a castling right exactly when the move touches neither its
/// king's square nor the corner of that wing: a rook that leaves its corner
/// or is captured there costs the right of its wing only, and a king that
/// moves, castling included, costs both.
pub proof fn lemma_castle_rights(p: Posicion, m: Movim)
    requires
        p.wf(),
        move_fits(p, m),
    ensures
        make_spec(p, m).may_castle_short(1) <==> p.may_castle_short(1) && !touches(m, 4)
            && !touches(m, 7),
        make_spec(p, m).may_castle_long(1) <==> p.may_castle_long(1) && !touches(m, 4) && !touches(
            m,
            0,
        ),
        make_spec(p, m).may_castle_short(-1) <==> p.may_castle_short(-1) && !touches(m, 116)
            && !touches(m, 119),
        make_spec(p, m).may_castle_long(-1) <==> p.may_castle_long(-1) && !touches(m, 116)
            && !touches(m, 112),
{
}

/// Moves the pieces of `movim` for the side that is no longer to move, sets
/// the en-passant square after a double step, and takes the rights of a side
/// that castles.
fn relocate(board: &mut Tablero, movim: Movim)
    requires
        old(board)@.squares.len() == 128,
        old(board).to_move == 1 || old(board).to_move == -1,
        move_shape(movim),
    ensures
        final(board)@ == (Posicion {
            squares: moved_squares(old(board)@.squares, -old(board)@.to_move, movim),
            en_passant: if is_double_push(movim) {
                (movim.from_index + movim.to_index) / 2
            } else {
                old(board)@.en_passant
            },
            white_castle: if (movim.move_type == SHORT_CASTLE || movim.move_type == LONG_CASTLE)
                && movim.piece_moving == W_KING {
                CASTLE_NONE as int
            } else {
                old(board)@.white_castle
            },
            black_castle: if (movim.move_type == SHORT_CASTLE || movim.move_type == LONG_CASTLE)
                && movim.piece_moving != W_KING {
                CASTLE_NONE as int
            } else {
                old(board)@.black_castle
            },
            ..old(board)@
        }),
        final(board).history == old(board).history,
{
    let ghost antes = board@;
    if movim.move_type == ORDINARY_MOVE {
        board.board_array[movim.to_index] = movim.piece_moving;
        board.board_array[movim.from_index] = EMPTY_SQUARE;
        if movim.piece_moving == W_PAWN || movim.piece_moving == B_PAWN {
            if movim.to_index == movim.from_index + 32 || movim.from_index == movim.to_index + 32 {
                board.en_passant = ((movim.from_index + movim.to_index) / 2) as i16;
            }
        }
    } else if movim.move_type == SHORT_CASTLE {
        if movim.piece_moving == W_KING {
            board.board_array[7] = EMPTY_SQUARE;
            board.board_array[4] = EMPTY_SQUARE;
            board.board_array[6] = W_KING;
            board.board_array[5] = W_ROOK;
            board.white_castle = CASTLE_NONE;
        } else {
            board.board_array[119] = EMPTY_SQUARE;
            board.board_array[116] = EMPTY_SQUARE;
            board.board_array[118] = B_KING;
            board.board_array[117] = B_ROOK;
            board.black_castle = CASTLE_NONE;
        }
    } else if movim.move_type == LONG_CASTLE {
        if movim.piece_moving == W_KING {
            board.board_array[0] = EMPTY_SQUARE;
            board.board_array[4] = EMPTY_SQUARE;
            board.board_array[2] = W_KING;
            board.board_array[3] = W_ROOK;
            board.white_castle = CASTLE_NONE;
        } else {
            board.board_array[112] = EMPTY_SQUARE;
            board.board_array[116] = EMPTY_SQUARE;
            board.board_array[114] = B_KING;
            board.board_array[115] = B_ROOK;
            board.black_castle = CASTLE_NONE;
        }
    } else if movim.move_type == EN_PASSANT {
        if board.to_move == -1 {
            board.board_array[movim.to_index - 16] = EMPTY_SQUARE;
        } else {
            board.board_array[movim.to_index + 16] = EMPTY_SQUARE;
        }
        board.board_array[movim.to_index] = movim.piece_moving;
        board.board_array[movim.from_index] = EMPTY_SQUARE;
    } else {
        let turno: i16 = board.to_move * -1;
        if movim.move_type == PROMOTION_QUEEN {
            board.board_array[movim.to_index] = W_QUEEN * turno;
        }
        if movim.move_type == PROMOTION_ROOK {
            board.board_array[movim.to_index] = W_ROOK * turno;
        }
        if movim.move_type == PROMOTION_BISHOP {
            board.board_array[movim.to_index] = W_BISHOP * turno;
        }
        if movim.move_type == PROMOTION_KNIGHT {
            board.board_array[movim.to_index] = W_KNIGHT * turno;
        }
        board.board_array[movim.from_index] = EMPTY_SQUARE;
    }
    assert(board.board_array@ =~= moved_squares(antes.squares, -antes.to_move, movim));
}

/// Narrows one side's rights to its king and rooks that are at home.
fn narrow(rights: i16, king_home: bool, long_rook: bool, short_rook: bool) -> (r: i16)
    ensures
        r == narrowed(rights as int, king_home, long_rook, short_rook),
{
    let mut r = rights;
    if !king_home {
        r = CASTLE_NONE;
    }
    if !long_rook {
        if r == CASTLE_BOTH {
            r = CASTLE_SHORT;
        } else if r == CASTLE_LONG {
            r = CASTLE_NONE;
        }
    }
    if !short_rook {
        if r == CASTLE_BOTH {
            r = CASTLE_LONG;
        } else if r == CASTLE_SHORT {
            r = CASTLE_NONE;
        }
    }
    r
}

/// Applies `movim` to the board and hands the move back.
pub fn make_movim(board: &mut Tablero, movim: Movim) -> (hecho: Movim)
    requires
        old(board)@.valid(),
        move_shape(movim),
    ensures
        final(board)@ == make_spec(old(board)@, movim),
        final(board).history == old(board).history,
        hecho == movim,
{
    board.modif_paso(-1);
    let bando = board.to_move;
    board.modif_bando(bando * -1);
    if movim.piece_moving != W_PAWN && movim.piece_moving != B_PAWN && movim.capture == 0 {
        let medias: i16 = board.moves_fifty + 1;
        board.modif_medias(medias);
    } else {
        board.modif_medias(0);
    }
    if movim.piece_moving < 0 {
        let todas: i16 = board.moves_full + 1;
        board.modif_todas(todas);
    }
    relocate(board, movim);
    board.white_castle = narrow(
        board.white_castle,
        board.board_array[4] == W_KING,
        board.board_array[0] == W_ROOK,
        board.board_array[7] == W_ROOK,
    );
    board.black_castle = narrow(
        board.black_castle,
        board.board_array[116] == B_KING,
        board.board_array[112] == B_ROOK,
        board.board_array[119] == B_ROOK,
    );
    movim
}

/// What taking back `m` needs of the position after it: the squares of the
/// move on the board, room for the pawn an en-passant capture took, and
/// counters and a side to move that can go back.
pub open spec fn unmake_ready(p: Posicion, m: Movim) -> bool {
    &&& p.squares.len() == 128
    &&& move_shape(m)
    &&& (p.to_move == 1 || p.to_move == -1)
    &&& p.moves_full > i16::MIN
}

/// Takes `movim` back from the board.
pub fn unmake_movim(board: &mut Tablero, movim: Movim)
    requires
        unmake_ready(old(board)@, movim),
    ensures
        final(board)@ == unmake_spec(old(board)@, movim),
        final(board).history == old(board).history,
{
    let ghost antes = board@;
    board.en_passant = movim.prev_pos[0];
    board.white_castle = movim.prev_pos[1];
    board.black_castle = movim.prev_pos[2];
    board.moves_fifty = movim.prev_pos[3];
    let turno: i16 = board.to_move * -1;
    board.to_move = turno;
    if movim.piece_moving < 0 {
        let todas: i16 = board.moves_full - 1;
        board.moves_full = todas;
    }
    if movim.move_type == SHORT_CASTLE {
        if movim.piece_moving == W_KING {
            board.board_array[5] = EMPTY_SQUARE;
            board.board_array[6] = EMPTY_SQUARE;
            board.board_array[4] = W_KING;
            board.board_array[7] = W_ROOK;
        } else if movim.piece_moving == B_KING {
            board.board_array[117] = EMPTY_SQUARE;
            board.board_array[118] = EMPTY_SQUARE;
            board.board_array[116] = B_KING;
            board.board_array[119] = B_ROOK;
        }
    } else if movim.move_type == LONG_CASTLE {
        if movim.piece_moving == W_KING {
            board.board_array[2] = EMPTY_SQUARE;
            board.board_array[3] = EMPTY_SQUARE;
            board.board_array[4] = W_KING;
            board.board_array[0] = W_ROOK;
        } else if movim.piece_moving == B_KING {
            board.board_array[114] = EMPTY_SQUARE;
            board.board_array[115] = EMPTY_SQUARE;
            board.board_array[116] = B_KING;
            board.board_array[112] = B_ROOK;
        }
    } else if movim.move_type == EN_PASSANT {
        board.board_array[movim.from_index] = movim.piece_moving;
        board.board_array[movim.to_index] = EMPTY_SQUARE;
        if movim.piece_moving == W_PAWN {
            board.board_array[movim.to_index - 16] = B_PAWN;
        } else {
            board.board_array[movim.to_index + 16] = W_PAWN;
        }
    } else {
        board.board_array[movim.from_index] = movim.piece_moving;
        board.board_array[movim.to_index] = movim.capture;
    }
    assert(board.board_array@ =~= restored_squares(antes.squares, movim));
}

/// Whether what the kind of `movim` asks for holds on the board.
fn encaja_tipo(board: &Tablero, movim: Movim) -> (b: bool)
    requires
        board@.sound(),
        on_board(movim.from_index as int),
        on_board(movim.to_index as int),
        ORDINARY_MOVE <= movim.move_type <= PROMOTION_KNIGHT,
        -6 <= movim.piece_moving <= 6,
    ensures
        b == {
            let p = board@;
            let m = movim;
            let from = m.from_index as int;
            let to = m.to_index as int;
            let side = p.to_move;
            &&& m.move_type == SHORT_CASTLE ==> {
                &&& m.piece_moving == W_KING * side
                &&& from == (if side == 1 { 4int } else { 116int })
                &&& to == from + 2
                &&& m.capture == 0
                &&& p.may_castle_short(side)
                &&& p.at(from + 1) == 0
                &&& p.at(from + 2) == 0
            }
            &&& m.move_type == LONG_CASTLE ==> {
                &&& m.piece_moving == W_KING * side
                &&& from == (if side == 1 { 4int } else { 116int })
                &&& to == from - 2
                &&& m.capture == 0
                &&& p.may_castle_long(side)
                &&& p.at(from - 1) == 0
                &&& p.at(from - 2) == 0
                &&& p.at(from - 3) == 0
            }
            &&& m.move_type == EN_PASSANT ==> {
                &&& m.piece_moving == W_PAWN * side
                &&& to == p.en_passant
                &&& m.capture == B_PAWN * side
                &&& (to == from + 16 * side + 1 || to == from + 16 * side - 1)
            }
            &&& (m.move_type != SHORT_CASTLE && m.move_type != LONG_CASTLE && m.move_type
                != EN_PASSANT) ==> {
                &&& m.capture == p.at(to)
                &&& seen_by(m.capture as int, side) <= 0
            }
            &&& m.move_type >= PROMOTION_QUEEN ==> m.piece_moving == W_PAWN * side
        },
{
    let from: i16 = movim.from_index as i16;
    let to: i16 = movim.to_index as i16;
    let side: i16 = board.to_move;
    let home: i16 = if side == 1 {
        4
    } else {
        116
    };
    let rights: i16 = if side == 1 {
        board.white_castle
    } else {
        board.black_castle
    };
    assert(-6 <= board@.squares[to as int] <= 6);
    if movim.move_type == SHORT_CASTLE {
        movim.piece_moving == W_KING * side && from == home && to == from + 2 && movim.capture
            == 0 && (rights == 1 || rights == 3) && board.board_array[(home + 1) as usize] == 0
            && board.board_array[(home + 2) as usize] == 0
    } else if movim.move_type == LONG_CASTLE {
        movim.piece_moving == W_KING * side && from == home && to == from - 2 && movim.capture
            == 0 && (rights == 2 || rights == 3) && board.board_array[(home - 1) as usize] == 0
            && board.board_array[(home - 2) as usize] == 0 && board.board_array[(home
            - 3) as usize] == 0
    } else if movim.move_type == EN_PASSANT {
        movim.piece_moving == W_PAWN * side && to == board.en_passant && movim.capture == B_PAWN
            * side && (to == from + 16 * side + 1 || to == from + 16 * side - 1)
    } else {
        movim.capture == board.board_array[movim.to_index] && crate::defs::visto(
            board.board_array[movim.to_index],
            side,
        ) <= 0 && (movim.move_type < PROMOTION_QUEEN || movim.piece_moving == W_PAWN * side)
    }
}

/// Whether `movim` goes as its piece moves.
fn va_como_pieza(board: &Tablero, movim: Movim) -> (b: bool)
    requires
        board@.sound(),
        on_board(movim.from_index as int),
        on_board(movim.to_index as int),
        -6 <= movim.piece_moving <= 6,
    ensures
        b == goes_as_piece(board@, movim),
{
    let from: i16 = movim.from_index as i16;
    let to: i16 = movim.to_index as i16;
    let side: i16 = board.to_move;
    let kind: i16 = if movim.piece_moving < 0 {
        -movim.piece_moving
    } else {
        movim.piece_moving
    };
    if movim.move_type == SHORT_CASTLE || movim.move_type == LONG_CASTLE || movim.move_type
        == EN_PASSANT {
        return true;
    }
    let class = attack_lookup(from, to);
    if kind == 6 {
        let casa: i16 = if side == 1 {
            6
        } else {
            1
        };
        let doble = movim.move_type == ORDINARY_MOVE && (to == from + 32 || from == to + 32);
        (movim.move_type >= PROMOTION_QUEEN) == (from / 16 == casa) && if movim.capture == 0 {
            to == from + 16 * side || doble
        } else {
            to == from + 15 * side || to == from + 17 * side
        }
    } else if kind == 5 {
        class == ATTACK_N
    } else if kind == 1 {
        class == ATTACK_KQR || class == ATTACK_KQB_WP || class == ATTACK_KQB_BP
    } else if kind == 3 {
        (class == ATTACK_KQR || class == ATTACK_QR) && traverse_delta(board, from, to)
    } else if kind == 4 {
        (class == ATTACK_KQB_WP || class == ATTACK_KQB_BP || class == ATTACK_QB)
            && traverse_delta(board, from, to)
    } else {
        class != ATTACK_NONE && class != ATTACK_N && traverse_delta(board, from, to)
    }
}

/// Whether `movim` fits the board.
pub fn encaja(board: &Tablero, movim: Movim) -> (b: bool)
    requires
        board@.sound(),
    ensures
        b == move_fits(board@, movim),
{
    let from = movim.from_index;
    let to = movim.to_index;
    if !(from < 128 && from % 16 < 8 && to < 128 && to % 16 < 8 && from != to) {
        return false;
    }
    assert(-6 <= board@.squares[from as int] <= 6);
    let side: i16 = board.to_move;
    let pieza: i16 = board.board_array[from];
    if movim.piece_moving != pieza || crate::defs::visto(pieza, side) <= 0 {
        return false;
    }
    let previa = movim.prev_pos;
    if !(previa[0] == board.en_passant && previa[1] == board.white_castle && previa[2]
        == board.black_castle && previa[3] == board.moves_fifty) {
        assert(!(movim.prev_pos@ =~= snapshot(board@)));
        return false;
    }
    assert(movim.prev_pos@ =~= snapshot(board@));
    if movim.move_type < ORDINARY_MOVE || movim.move_type > PROMOTION_KNIGHT {
        return false;
    }
    if !encaja_tipo(board, movim) {
        return false;
    }
    let doble = movim.move_type == ORDINARY_MOVE && (pieza == W_PAWN || pieza == B_PAWN) && (to
        == from + 32 || from == to + 32);
    assert(doble == is_double_push(movim));
    if !va_como_pieza(board, movim) {
        return false;
    }
    if doble {
        let fi: i16 = from as i16;
        let ti: i16 = to as i16;
        let casa: i16 = if side == 1 {
            1
        } else {
            6
        };
        fi / 16 == casa && ti == fi + 32 * side && board.board_array[(fi + 16 * side) as usize]
            == 0 && movim.capture == 0
    } else {
        true
    }
}

} // verus!
