//! Which squares the side to move attacks, and where the kings stand.

use vstd::prelude::*;
use crate::defs::{
    abs_int, attack_class, attack_lookup, delta_lookup, diff_dx, diff_dy, en_tablero, file_of,
    lemma_diff_components, on_board, rank_of, seen_by, sign_int, step_delta, visto, ATTACK_KQB_BP, ATTACK_KQB_WP,
    ATTACK_KQR, ATTACK_N, ATTACK_NONE, ATTACK_QB, ATTACK_QR, B_PAWN, EMPTY_SQUARE, W_BISHOP,
    W_KING, W_KNIGHT, W_PAWN, W_QUEEN, W_ROOK,
};
use crate::tablero::{Posicion, Tablero};

verus! {

/// How many steps lie between two squares whose difference is `diff`.
pub open spec fn distance(diff: int) -> int {
    let ax = abs_int(diff_dx(diff));
    let ay = abs_int(diff_dy(diff));
    if ax > ay {
        ax
    } else {
        ay
    }
}

/// The square `k` steps from `from`.
pub open spec fn ray_square(from: int, step: int, k: int) -> int {
    from + k * step
}

/// Every square strictly between `from` and `to`, on the line that joins
/// them, is empty.
pub open spec fn path_clear(p: Posicion, from: int, to: int) -> bool {
    forall|k: int|
        0 < k < distance(to - from) ==> p.squares[#[trigger] ray_square(
            from,
            step_delta(to - from),
            k,
        )] == 0
}

/// Whether the attack class is one along a line: a rank, a file or a
/// diagonal.
pub open spec fn on_a_line(class: int) -> bool {
    class != ATTACK_NONE && class != ATTACK_N
}

/// On a line, the steps from one square lead to the other, over squares of
/// the board.
pub proof fn lemma_ray(from: int, to: int, k: int)
    requires
        on_board(from),
        on_board(to),
        on_a_line(attack_class(to - from)),
        0 <= k <= distance(to - from),
    ensures
        1 <= distance(to - from) <= 7,
        step_delta(to - from) != 0,
        ray_square(from, step_delta(to - from), distance(to - from)) == to,
        on_board(ray_square(from, step_delta(to - from), k)),
        k < distance(to - from) ==> ray_square(from, step_delta(to - from), k) != to,
{
    lemma_diff_components(from, to);
    let dx = file_of(to) - file_of(from);
    let dy = rank_of(to) - rank_of(from);
    let sx = sign_int(dx);
    let sy = sign_int(dy);
    let n = distance(to - from);
    let step = step_delta(to - from);
    assert(step == 16 * sy + sx);
    lemma_mul_sign(n, sx);
    lemma_mul_sign(n, sy);
    lemma_mul_sign(k, sx);
    lemma_mul_sign(k, sy);
    assert(n * step == 16 * (n * sy) + n * sx) by (nonlinear_arith)
        requires
            step == 16 * sy + sx,
    ;
    assert(k * step == 16 * (k * sy) + k * sx) by (nonlinear_arith)
        requires
            step == 16 * sy + sx,
    ;
    assert(from == 16 * rank_of(from) + file_of(from));
    assert(to == 16 * rank_of(to) + file_of(to));
}

/// The product of a number and a sign.
proof fn lemma_mul_sign(k: int, s: int)
    requires
        -1 <= s <= 1,
    ensures
        k * s == (if s == 1 {
            k
        } else if s == -1 {
            -k
        } else {
            0
        }),
{
    assert(k * 1 == k && k * (-1) == -k && k * 0 == 0) by (nonlinear_arith);
}

/// One of the eight steps along a rank, a file or a diagonal.
pub open spec fn line_step(d: int) -> bool {
    d == 1 || d == -1 || d == 15 || d == -15 || d == 16 || d == -16 || d == 17 || d == -17
}

/// Steps that stay on the board change file and rank by as much each.
proof fn lemma_line_coords(from: int, d: int, k: int)
    requires
        line_step(d),
        0 <= k,
        forall|j: int| 0 <= j <= k ==> on_board(#[trigger] ray_square(from, d, j)),
    ensures
        file_of(ray_square(from, d, k)) == file_of(from) + k * diff_dx(d),
        rank_of(ray_square(from, d, k)) == rank_of(from) + k * diff_dy(d),
    decreases k,
{
    let dx = diff_dx(d);
    let dy = diff_dy(d);
    lemma_mul_sign(k, dx);
    lemma_mul_sign(k, dy);
    if k == 0 {
        assert(ray_square(from, d, 0) == from) by (nonlinear_arith);
    } else {
        lemma_line_coords(from, d, k - 1);
        lemma_mul_sign(k - 1, dx);
        lemma_mul_sign(k - 1, dy);
        let x = ray_square(from, d, k - 1);
        let y = ray_square(from, d, k);
        assert(on_board(x));
        assert(on_board(y));
        assert(y == x + d) by (nonlinear_arith)
            requires
                x == from + (k - 1) * d,
                y == from + k * d,
        ;
        assert(d == 16 * dy + dx);
    }
}

/// Steps along a line that stay on the board lead to a square on that line,
/// as many steps away, and the step towards it is the step taken.
pub proof fn lemma_line(from: int, d: int, k: int)
    requires
        line_step(d),
        1 <= k,
        forall|j: int| 0 <= j <= k ==> on_board(#[trigger] ray_square(from, d, j)),
    ensures
        distance(ray_square(from, d, k) - from) == k,
        step_delta(ray_square(from, d, k) - from) == d,
        attack_class(ray_square(from, d, k) - from) == (if diff_dx(d) == 0 || diff_dy(d) == 0 {
            if k == 1 {
                ATTACK_KQR as int
            } else {
                ATTACK_QR as int
            }
        } else if k == 1 {
            if diff_dy(d) == 1 {
                ATTACK_KQB_WP as int
            } else {
                ATTACK_KQB_BP as int
            }
        } else {
            ATTACK_QB as int
        }),
{
    let to = ray_square(from, d, k);
    let dx = diff_dx(d);
    let dy = diff_dy(d);
    lemma_line_coords(from, d, k);
    assert(on_board(ray_square(from, d, 0)));
    assert(ray_square(from, d, 0) == from) by (nonlinear_arith);
    assert(on_board(to));
    lemma_diff_components(from, to);
    lemma_mul_sign(k, dx);
    lemma_mul_sign(k, dy);
}

/// Whether the piece on square `a`, if it is of the side to move, attacks
/// square `t`.
///
/// A king, queen or rook attacks the next square of its rank or file, a
/// king, queen or bishop the next square of a diagonal, and a pawn the two
/// squares diagonally ahead of it; queen, rook and bishop attack farther
/// along their lines as long as nothing stands between; a knight attacks
/// where it jumps.
pub open spec fn attacks(p: Posicion, a: int, t: int) -> bool {
    let piece = seen_by(p.at(a), p.to_move);
    let class = attack_class(t - a);
    if class == ATTACK_KQR {
        piece == W_KING || piece == W_QUEEN || piece == W_ROOK
    } else if class == ATTACK_QR {
        (piece == W_QUEEN || piece == W_ROOK) && path_clear(p, a, t)
    } else if class == ATTACK_KQB_WP {
        piece == W_KING || piece == W_QUEEN || piece == W_BISHOP || (p.to_move == 1 && p.at(a)
            == W_PAWN)
    } else if class == ATTACK_KQB_BP {
        piece == W_KING || piece == W_QUEEN || piece == W_BISHOP || (p.to_move == -1 && p.at(a)
            == B_PAWN)
    } else if class == ATTACK_QB {
        (piece == W_QUEEN || piece == W_BISHOP) && path_clear(p, a, t)
    } else if class == ATTACK_N {
        piece == W_KNIGHT
    } else {
        false
    }
}

/// Whether some piece of the side to move attacks square `t`.
pub open spec fn attacked(p: Posicion, t: int) -> bool {
    exists|a: int| on_board(a) && #[trigger] attacks(p, a, t)
}

/// Walks from `attacker` towards `attacked` and says whether the way is
/// free.
pub fn traverse_delta(board: &Tablero, attacker: i16, attacked: i16) -> (libre: bool)
    requires
        on_board(attacker as int),
        on_board(attacked as int),
        on_a_line(attack_class(attacked - attacker)),
    ensures
        libre == path_clear(board@, attacker as int, attacked as int),
{
    let delta: i16 = delta_lookup(attacker, attacked);
    let mut delta_index: i16 = attacker;
    let ghost n = distance(attacked - attacker);
    let ghost mut k: int = 0;
    proof {
        lemma_ray(attacker as int, attacked as int, 0);
    }
    loop
        invariant
            on_board(attacker as int),
            on_board(attacked as int),
            on_a_line(attack_class(attacked - attacker)),
            delta == step_delta(attacked - attacker),
            n == distance(attacked - attacker),
            0 <= k < n,
            delta_index == ray_square(attacker as int, delta as int, k),
            on_board(delta_index as int),
            forall|j: int|
                0 < j <= k ==> board@.squares[#[trigger] ray_square(
                    attacker as int,
                    delta as int,
                    j,
                )] == 0,
        decreases n - k,
    {
        proof {
            lemma_ray(attacker as int, attacked as int, k + 1);
            assert(ray_square(attacker as int, delta as int, k + 1) == delta_index + delta)
                by (nonlinear_arith)
                requires
                    delta_index == ray_square(attacker as int, delta as int, k),
            ;
            k = k + 1;
        }
        delta_index += delta;
        if delta_index == attacked {
            return true;
        }
        if board.board_array[delta_index as usize] != EMPTY_SQUARE {
            return false;
        }
    }
}

/// Whether a piece of the side to move attacks square `attacked`.
pub fn es_atacada(board: &Tablero, attacked: i16) -> (b: bool)
    requires
        board@.sound(),
        on_board(attacked as int),
    ensures
        b == crate::ataque::attacked(board@, attacked as int),
{
    let mut attacker: i16 = 0;
    while attacker < 120
        invariant
            board@.sound(),
            on_board(attacked as int),
            0 <= attacker <= 128,
            attacker % 16 <= 8,
            forall|a: int|
                0 <= a < attacker && on_board(a) ==> !#[trigger] attacks(
                    board@,
                    a,
                    attacked as int,
                ),
        decreases 128 - attacker,
    {
        if en_tablero(attacker) {
            assert(-6 <= board@.squares[attacker as int] <= 6);
            let piece_on_square: i16 = visto(board.board_array[attacker as usize], board.to_move);
            let class: i16 = attack_lookup(attacker, attacked);
            let hit = if class == ATTACK_KQR {
                piece_on_square == W_KING || piece_on_square == W_QUEEN || piece_on_square
                    == W_ROOK
            } else if class == ATTACK_QR {
                (piece_on_square == W_QUEEN || piece_on_square == W_ROOK) && traverse_delta(
                    board,
                    attacker,
                    attacked,
                )
            } else if class == ATTACK_KQB_WP {
                piece_on_square == W_KING || piece_on_square == W_QUEEN || piece_on_square
                    == W_BISHOP || (board.to_move == 1 && board.board_array[attacker as usize]
                    == W_PAWN)
            } else if class == ATTACK_KQB_BP {
                piece_on_square == W_KING || piece_on_square == W_QUEEN || piece_on_square
                    == W_BISHOP || (board.to_move == -1 && board.board_array[attacker as usize]
                    == B_PAWN)
            } else if class == ATTACK_QB {
                (piece_on_square == W_QUEEN || piece_on_square == W_BISHOP) && traverse_delta(
                    board,
                    attacker,
                    attacked,
                )
            } else if class == ATTACK_N {
                piece_on_square == W_KNIGHT
            } else {
                false
            };
            assert(hit == attacks(board@, attacker as int, attacked as int));
            if hit {
                return true;
            }
        } else {
            attacker += 7;
        }
        attacker += 1;
    }
    false
}

/// Whether `sq` is the first square, counted from a1 along the ranks, that
/// holds the king of `side`.
pub open spec fn is_king_square(p: Posicion, side: int, sq: int) -> bool {
    &&& on_board(sq)
    &&& p.at(sq) == W_KING * side
    &&& forall|s: int| 0 <= s < sq && on_board(s) ==> p.at(s) != W_KING * side
}

/// Whether `side` has a king on the board.
pub open spec fn has_king(p: Posicion, side: int) -> bool {
    exists|sq: int| on_board(sq) && p.at(sq) == W_KING * side
}

/// The square of the king of the side whose sign `bando` has, or 1024
/// where that side has no king.
pub fn busca_rey(board: &Tablero, bando: i16) -> (casilla: i16)
    requires
        bando != 0,
    ensures
        has_king(board@, sign_int(bando as int)) ==> is_king_square(
            board@,
            sign_int(bando as int),
            casilla as int,
        ),
        !has_king(board@, sign_int(bando as int)) ==> casilla == 1024,
{
    let mut casilla: i16 = 0;
    while casilla < 120
        invariant
            0 <= casilla <= 128,
            casilla % 16 <= 8,
            bando != 0,
            forall|s: int|
                0 <= s < casilla && on_board(s) ==> #[trigger] board@.squares[s] != W_KING
                    * sign_int(bando as int),
        decreases 128 - casilla,
    {
        if en_tablero(casilla) {
            if board.board_array[casilla as usize] == W_KING && bando > 0 {
                return casilla;
            }
            if board.board_array[casilla as usize] == crate::defs::B_KING && bando < 0 {
                return casilla;
            }
        } else {
            casilla += 7;
        }
        casilla += 1;
    }
    1024
}

/// Whether the king of the side to move stands attacked by the other side.
/// A side without a king is not in check.
pub open spec fn in_check(p: Posicion) -> bool {
    exists|sq: int| is_king_square(p, p.to_move, sq) && attacked(p.flipped(), sq)
}

} // verus!
