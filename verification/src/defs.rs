//! Piece codes, move kinds, castling rights, and the geometry of the 0x88 board.
//!
//! A square is an index into a grid 16 columns wide and 8 rows high; the low
//! nibble is the file and the high nibble the rank. Only indices whose bits
//! `0x88` are clear name a real square, so leaving the board is detected with
//! one mask, and the difference of two squares determines their relative
//! placement uniquely.

use vstd::prelude::*;

verus! {

// Move kinds.
pub const ORDINARY_MOVE: i16 = 0;
pub const SHORT_CASTLE: i16 = 1;
pub const LONG_CASTLE: i16 = 2;
pub const EN_PASSANT: i16 = 3;
pub const PROMOTION_QUEEN: i16 = 4;
pub const PROMOTION_ROOK: i16 = 5;
pub const PROMOTION_BISHOP: i16 = 6;
pub const PROMOTION_KNIGHT: i16 = 7;

// Side to move.
pub const WHITE_TO_MOVE: i16 = 1;
pub const BLACK_TO_MOVE: i16 = -1;

// Piece codes: the sign is the colour, the magnitude the kind.
pub const W_KING: i16 = 1;
pub const W_QUEEN: i16 = 2;
pub const W_ROOK: i16 = 3;
pub const W_BISHOP: i16 = 4;
pub const W_KNIGHT: i16 = 5;
pub const W_PAWN: i16 = 6;
pub const B_KING: i16 = -1;
pub const B_QUEEN: i16 = -2;
pub const B_ROOK: i16 = -3;
pub const B_BISHOP: i16 = -4;
pub const B_KNIGHT: i16 = -5;
pub const B_PAWN: i16 = -6;
pub const EMPTY_SQUARE: i16 = 0;

// Castling rights of one side.
pub const CASTLE_NONE: i16 = 0;
pub const CASTLE_SHORT: i16 = 1;
pub const CASTLE_LONG: i16 = 2;
pub const CASTLE_BOTH: i16 = 3;

// Step sets of the pieces; unused slots hold 0.
pub const BISHOP_DELTA: [i16; 8] = [-15, -17, 15, 17, 0, 0, 0, 0];
pub const ROOK_DELTA: [i16; 8] = [-1, -16, 1, 16, 0, 0, 0, 0];
pub const QUEEN_DELTA: [i16; 8] = [-15, -17, 15, 17, -1, -16, 1, 16];
pub const KING_DELTA: [i16; 8] = [-15, -17, 15, 17, -1, -16, 1, 16];
pub const KNIGHT_DELTA: [i16; 8] = [18, 33, 31, 14, -31, -33, -18, -14];
pub const PAWN_DELTA: [i16; 8] = [16, 32, 17, 15, 0, 0, 0, 0];

// Attack classes: which pieces on a square can attack another square, by
// their relative placement.
pub const ATTACK_NONE: i16 = 0;
/// One step along a rank or file.
pub const ATTACK_KQR: i16 = 1;
/// Two or more steps along a rank or file.
pub const ATTACK_QR: i16 = 2;
/// One diagonal step up the board; a white pawn captures this way.
pub const ATTACK_KQB_WP: i16 = 3;
/// One diagonal step down the board; a black pawn captures this way.
pub const ATTACK_KQB_BP: i16 = 4;
/// Two or more steps along a diagonal.
pub const ATTACK_QB: i16 = 5;
/// A knight's jump.
pub const ATTACK_N: i16 = 6;

/// Attack class by `attacked - attacker + 128`.
pub const ATTACK_ARRAY: [i16; 257] = [
    0,0,0,0,0,0,0,0,0,5,0,0,0,0,0,0,2,0,0,0,
    0,0,0,5,0,0,5,0,0,0,0,0,2,0,0,0,0,0,5,0,
    0,0,0,5,0,0,0,0,2,0,0,0,0,5,0,0,0,0,0,0,
    5,0,0,0,2,0,0,0,5,0,0,0,0,0,0,0,0,5,0,0,
    2,0,0,5,0,0,0,0,0,0,0,0,0,0,5,6,2,6,5,0,
    0,0,0,0,0,0,0,0,0,0,6,4,1,4,6,0,0,0,0,0,
    0,2,2,2,2,2,2,1,0,1,2,2,2,2,2,2,0,0,0,0,
    0,0,6,3,1,3,6,0,0,0,0,0,0,0,0,0,0,0,5,6,
    2,6,5,0,0,0,0,0,0,0,0,0,0,5,0,0,2,0,0,5,
    0,0,0,0,0,0,0,0,5,0,0,0,2,0,0,0,5,0,0,0,
    0,0,0,5,0,0,0,0,2,0,0,0,0,5,0,0,0,0,5,0,
    0,0,0,0,2,0,0,0,0,0,5,0,0,5,0,0,0,0,0,0,
    2,0,0,0,0,0,0,5,0,0,0,0,0,0,0,0,0
];

/// Unit step from attacker towards attacked, by `attacked - attacker + 128`.
pub const DELTA_ARRAY: [i16; 257] = [
   0,   0,   0,   0,   0,   0,   0,   0,   0, -17,   0,   0,   0,   0,   0,   0, -16,   0,   0,   0,
   0,   0,   0, -15,   0,   0, -17,   0,   0,   0,   0,   0, -16,   0,   0,   0,   0,   0, -15,   0,
   0,   0,   0, -17,   0,   0,   0,   0, -16,   0,   0,   0,   0, -15,   0,   0,   0,   0,   0,   0,
 -17,   0,   0,   0, -16,   0,   0,   0, -15,   0,   0,   0,   0,   0,   0,   0,   0, -17,   0,   0,
 -16,   0,   0, -15,   0,   0,   0,   0,   0,   0,   0,   0,   0,   0, -17, -33, -16, -31, -15,   0,
   0,   0,   0,   0,   0,   0,   0,   0,   0,   0, -18, -17, -16, -15, -14,   0,   0,   0,   0,   0,
   0,  -1,  -1,  -1,  -1,  -1,  -1,  -1,   0,   1,   1,   1,   1,   1,   1,   1,   0,   0,   0,   0,
   0,   0,  14,  15,  16,  17,  18,   0,   0,   0,   0,   0,   0,   0,   0,   0,   0,   0,  15,  31,
  16,  33,  17,   0,   0,   0,   0,   0,   0,   0,   0,   0,   0,  15,   0,   0,  16,   0,   0,  17,
   0,   0,   0,   0,   0,   0,   0,   0,  15,   0,   0,   0,  16,   0,   0,   0,  17,   0,   0,   0,
   0,   0,   0,  15,   0,   0,   0,   0,  16,   0,   0,   0,   0,  17,   0,   0,   0,   0,  15,   0,
   0,   0,   0,   0,  16,   0,   0,   0,   0,   0,  17,   0,   0,  15,   0,   0,   0,   0,   0,   0,
  16,   0,   0,   0,   0,   0,   0,  17,   0,   0,   0,   0,   0,   0,   0,   0,   0
];

/// Square names in reading order: rank 8 first, file a first.
pub const SQUARE_NAMES: [&'static str; 64] = [
    "a8", "b8", "c8", "d8", "e8", "f8", "g8", "h8",
    "a7", "b7", "c7", "d7", "e7", "f7", "g7", "h7",
    "a6", "b6", "c6", "d6", "e6", "f6", "g6", "h6",
    "a5", "b5", "c5", "d5", "e5", "f5", "g5", "h5",
    "a4", "b4", "c4", "d4", "e4", "f4", "g4", "h4",
    "a3", "b3", "c3", "d3", "e3", "f3", "g3", "h3",
    "a2", "b2", "c2", "d2", "e2", "f2", "g2", "h2",
    "a1", "b1", "c1", "d1", "e1", "f1", "g1", "h1"
];

/// File names, file a first.
pub const FILE_NAMES: [&'static str; 8] = ["a", "b", "c", "d", "e", "f", "g", "h"];

// The squares of each file, rank 1 first.
pub const FILE_A: [i16; 8] = [0, 16, 32, 48, 64, 80, 96, 112];
pub const FILE_B: [i16; 8] = [1, 17, 33, 49, 65, 81, 97, 113];
pub const FILE_C: [i16; 8] = [2, 18, 34, 50, 66, 82, 98, 114];
pub const FILE_D: [i16; 8] = [3, 19, 35, 51, 67, 83, 99, 115];
pub const FILE_E: [i16; 8] = [4, 20, 36, 52, 68, 84, 100, 116];
pub const FILE_F: [i16; 8] = [5, 21, 37, 53, 69, 85, 101, 117];
pub const FILE_G: [i16; 8] = [6, 22, 38, 54, 70, 86, 102, 118];
pub const FILE_H: [i16; 8] = [7, 23, 39, 55, 71, 87, 103, 119];

// The squares of each rank, file a first.
pub const RANK_1: [i16; 8] = [0, 1, 2, 3, 4, 5, 6, 7];
pub const RANK_2: [i16; 8] = [16, 17, 18, 19, 20, 21, 22, 23];
pub const RANK_3: [i16; 8] = [32, 33, 34, 35, 36, 37, 38, 39];
pub const RANK_4: [i16; 8] = [48, 49, 50, 51, 52, 53, 54, 55];
pub const RANK_5: [i16; 8] = [64, 65, 66, 67, 68, 69, 70, 71];
pub const RANK_6: [i16; 8] = [80, 81, 82, 83, 84, 85, 86, 87];
pub const RANK_7: [i16; 8] = [96, 97, 98, 99, 100, 101, 102, 103];
pub const RANK_8: [i16; 8] = [112, 113, 114, 115, 116, 117, 118, 119];

/// A square's name with its 0x88 index.
#[derive(Copy, Clone)]
pub struct CasillaVal {
    pub casilla: &'static str,
    pub indice: i16,
}

/// A file with the indices of its squares, rank 1 first.
#[derive(Copy, Clone)]
pub struct Cols {
    pub col: &'static str,
    pub inds: [i16; 8],
}

/// A rank with the indices of its squares, file a first.
#[derive(Copy, Clone)]
pub struct Filas {
    pub fila: i16,
    pub inds: [i16; 8],
}

/// Whether `sq` names one of the 64 squares.
pub open spec fn on_board(sq: int) -> bool {
    0 <= sq < 128 && sq % 16 < 8
}

/// File of a square, 0 for file a.
pub open spec fn file_of(sq: int) -> int {
    sq % 16
}

/// Rank of a square, 0 for rank 1.
pub open spec fn rank_of(sq: int) -> int {
    sq / 16
}

/// The square on file `file` and rank `rank`, both counted from 0.
pub open spec fn square_at(file: int, rank: int) -> int {
    16 * rank + file
}

/// The size of a number.
pub open spec fn abs_int(x: int) -> int {
    if x < 0 {
        -x
    } else {
        x
    }
}

/// The sign of a number: -1, 0 or 1.
pub open spec fn sign_int(x: int) -> int {
    if x < 0 {
        -1
    } else if x > 0 {
        1
    } else {
        0
    }
}

/// A piece code as `side` sees it: positive for a piece of its own.
pub open spec fn seen_by(piece: int, side: int) -> int {
    if side == 1 {
        piece
    } else {
        -piece
    }
}

/// Whether two piece codes are of opposite colours.
pub open spec fn opposed(a: int, b: int) -> bool {
    (a > 0 && b < 0) || (a < 0 && b > 0)
}

/// Ranks between two squares, from their difference: the nearest multiple
/// of 16.
pub open spec fn diff_dy(diff: int) -> int {
    (diff + 8) / 16
}

/// Files between two squares, from their difference.
pub open spec fn diff_dx(diff: int) -> int {
    diff - 16 * diff_dy(diff)
}

/// The attack class of a square difference `attacked - attacker`, stated by
/// the geometry of the board.
pub open spec fn attack_class(diff: int) -> int {
    let dx = diff_dx(diff);
    let dy = diff_dy(diff);
    let ax = abs_int(dx);
    let ay = abs_int(dy);
    if ax > 7 || ay > 7 || ax + ay == 0 {
        ATTACK_NONE as int
    } else if ax + ay == 1 {
        ATTACK_KQR as int
    } else if ax == 0 || ay == 0 {
        ATTACK_QR as int
    } else if ax == 1 && ay == 1 {
        if dy == 1 {
            ATTACK_KQB_WP as int
        } else {
            ATTACK_KQB_BP as int
        }
    } else if ax == ay {
        ATTACK_QB as int
    } else if ax + ay == 3 {
        ATTACK_N as int
    } else {
        ATTACK_NONE as int
    }
}

/// The step that leads from the attacker towards the attacked square: one
/// square along the line that joins them, the whole jump for a knight, and 0
/// where no piece attacks.
pub open spec fn step_delta(diff: int) -> int {
    let c = attack_class(diff);
    if c == ATTACK_NONE {
        0
    } else if c == ATTACK_N {
        diff
    } else {
        16 * sign_int(diff_dy(diff)) + sign_int(diff_dx(diff))
    }
}

/// Both tables hold, entry by entry, what the geometry says.
#[verifier::rlimit(30)]
pub proof fn lemma_geometry_tables()
    ensures
        forall|i: int| 0 <= i < 257 ==> #[trigger] ATTACK_ARRAY@[i] == attack_class(i - 128),
        forall|i: int| 0 <= i < 257 ==> #[trigger] DELTA_ARRAY@[i] == step_delta(i - 128),
{
}

/// The difference of two squares of the board determines how many files and
/// ranks lie between them.
pub proof fn lemma_diff_components(from: int, to: int)
    requires
        on_board(from),
        on_board(to),
    ensures
        diff_dx(to - from) == file_of(to) - file_of(from),
        diff_dy(to - from) == rank_of(to) - rank_of(from),
{
}

/// Tests the 0x88 mask on a square index. The mask tells the squares of
/// the board from all indices that a few steps from the board can reach.
pub fn en_tablero(sq: i16) -> (b: bool)
    requires
        -136 <= sq < 256,
    ensures
        b == on_board(sq as int),
{
    assert((sq & 0x88 == 0) <==> (0 <= sq < 128 && sq % 16 < 8)) by (bit_vector)
        requires
            -136 <= sq < 256,
    ;
    sq & 0x88 == 0
}

/// File of a square index, 0 for file a: its low nibble.
pub fn fn_columna(i: i16) -> (c: i16)
    ensures
        c == file_of(i as int),
{
    assert(i & 15 == i % 16) by (bit_vector);
    i & 15
}

/// Rank of a square index, 0 for rank 1: what stands above its low nibble.
pub fn fn_fila(i: i16) -> (r: i16)
    ensures
        r == rank_of(i as int),
{
    assert(i >> 4 == i / 16) by (bit_vector);
    i >> 4
}

/// A piece code as `side` sees it.
pub fn visto(piece: i16, side: i16) -> (v: i16)
    requires
        -6 <= piece <= 6,
    ensures
        v == seen_by(piece as int, side as int),
{
    if side == 1 {
        piece
    } else {
        -piece
    }
}

/// Looks up the attack class of `attacked` seen from `attacker`.
#[verifier::rlimit(30)]
pub fn attack_lookup(attacker: i16, attacked: i16) -> (c: i16)
    requires
        on_board(attacker as int),
        on_board(attacked as int),
    ensures
        c == attack_class(attacked - attacker),
{
    proof {
        lemma_geometry_tables();
    }
    ATTACK_ARRAY[(attacked - attacker + 128) as usize]
}

/// Looks up the step from `attacker` towards `attacked`.
#[verifier::rlimit(30)]
pub fn delta_lookup(attacker: i16, attacked: i16) -> (d: i16)
    requires
        on_board(attacker as int),
        on_board(attacked as int),
    ensures
        d == step_delta(attacked - attacker),
{
    proof {
        lemma_geometry_tables();
    }
    DELTA_ARRAY[(attacked - attacker + 128) as usize]
}

/// The `i`-th square in reading order (rank 8 first, file a first) with its
/// index.
pub fn casilla_valor(i: usize) -> (cv: CasillaVal)
    requires
        i < 64,
    ensures
        cv.casilla == SQUARE_NAMES@[i as int],
        cv.indice == square_at(i as int % 8, 7 - i as int / 8),
        on_board(cv.indice as int),
{
    let fila: usize = 7 - i / 8;
    let columna: usize = i % 8;
    CasillaVal { casilla: SQUARE_NAMES[i], indice: (16 * fila + columna) as i16 }
}

/// The file numbered `i` from file a, with its eight squares.
pub fn columna(i: usize) -> (c: Cols)
    requires
        i < 8,
    ensures
        c.col == FILE_NAMES@[i as int],
        forall|j: int| 0 <= j < 8 ==> #[trigger] c.inds@[j] == square_at(i as int, j),
{
    let inds = if i == 0 {
        FILE_A
    } else if i == 1 {
        FILE_B
    } else if i == 2 {
        FILE_C
    } else if i == 3 {
        FILE_D
    } else if i == 4 {
        FILE_E
    } else if i == 5 {
        FILE_F
    } else if i == 6 {
        FILE_G
    } else {
        FILE_H
    };
    Cols { col: FILE_NAMES[i], inds }
}

/// The rank numbered `i` from rank 1, with its eight squares.
pub fn fila(i: usize) -> (f: Filas)
    requires
        i < 8,
    ensures
        f.fila == i + 1,
        forall|j: int| 0 <= j < 8 ==> #[trigger] f.inds@[j] == square_at(j, i as int),
{
    let inds = if i == 0 {
        RANK_1
    } else if i == 1 {
        RANK_2
    } else if i == 2 {
        RANK_3
    } else if i == 3 {
        RANK_4
    } else if i == 4 {
        RANK_5
    } else if i == 5 {
        RANK_6
    } else if i == 6 {
        RANK_7
    } else {
        RANK_8
    };
    Filas { fila: (i + 1) as i16, inds }
}

} // verus!
