//! What a drawn board needs of the 0x88 board: which square lies under a
//! cell, what a square is called, and which picture shows a piece.

use vstd::prelude::*;
use crate::defs::{file_of, on_board, rank_of, square_at};
use crate::fen::{pon_casilla, square_name};

verus! {

/// The square drawn in column `col` and row `row` of the board, both
/// counted from 0; a flipped board is seen from black's side.
pub open spec fn cell_square(col: int, row: int, flipped: bool) -> int {
    if flipped {
        square_at(7 - col, 7 - row)
    } else {
        square_at(col, row)
    }
}

/// The square drawn in column `col` and row `row`, or nothing beside the
/// board.
pub fn casilla_dibujada(col: i32, row: i32, flipped: bool) -> (sq: Option<i16>)
    ensures
        sq is Some <==> 0 <= col < 8 && 0 <= row < 8,
        sq is Some ==> sq->0 == cell_square(col as int, row as int, flipped) && on_board(
            sq->0 as int,
        ),
{
    if col < 0 || col >= 8 || row < 0 || row >= 8 {
        None
    } else if flipped {
        Some((16 * (7 - row) + (7 - col)) as i16)
    } else {
        Some((16 * row + col) as i16)
    }
}

/// The square under the cell that lies `x` cells from the left and `y` cells
/// from the top of the drawing.
pub open spec fn clicked_square(x: int, y: int, flipped: bool) -> int {
    if flipped {
        square_at(7 - x, y)
    } else {
        square_at(x, 7 - y)
    }
}

/// The square under a cell of the drawing, or nothing beside the board.
pub fn casilla_pulsada(x: i32, y: i32, flipped: bool) -> (sq: Option<i16>)
    ensures
        sq is Some <==> 0 <= x < 8 && 0 <= y < 8,
        sq is Some ==> sq->0 == clicked_square(x as int, y as int, flipped) && on_board(
            sq->0 as int,
        ),
{
    if x < 0 || x >= 8 || y < 0 || y >= 8 {
        None
    } else if flipped {
        Some((16 * y + (7 - x)) as i16)
    } else {
        Some((16 * (7 - y) + x) as i16)
    }
}

/// The side of a cell on a drawing `width` wide and `height` high that
/// shows `n` cells each way: the largest that fits both ways.
pub open spec fn cell_side(width: int, height: int, n: int) -> int {
    if width / n < height / n {
        width / n
    } else {
        height / n
    }
}

/// The side of a cell of the drawing.
pub fn lado_casilla(width: i32, height: i32, n: i32) -> (lado: i32)
    requires
        0 <= width,
        0 <= height,
        0 < n,
    ensures
        lado == cell_side(width as int, height as int, n as int),
{
    let max_square_width = width / n;
    let max_square_height = height / n;
    if max_square_width < max_square_height {
        max_square_width
    } else {
        max_square_height
    }
}

/// The key by which the drawing knows a square: its file in the high byte
/// and its rank in the low one.
pub open spec fn square_key(sq: int) -> int {
    256 * file_of(sq) + rank_of(sq)
}

/// The key by which the drawing knows a square.
pub fn clave_casilla(sq: i16) -> (clave: i32)
    requires
        on_board(sq as int),
    ensures
        clave == square_key(sq as int),
{
    256 * (sq % 16) as i32 + (sq / 16) as i32
}

/// The name of a square.
pub fn nombre_casilla(sq: i16) -> (s: String)
    requires
        on_board(sq as int),
    ensures
        s@ == square_name(sq as int),
{
    let mut s = String::new();
    pon_casilla(&mut s, sq);
    assert(s@ =~= square_name(sq as int));
    s
}

/// Where the picture of a piece is found among the pictures: first the
/// side, 0 for black and 1 for white, then the kind, from 0 for the pawn to
/// 5 for the king. A code that is no piece's gives the first picture.
pub open spec fn picture_of(piece: int) -> (int, int) {
    (
        if piece > 0 {
            1
        } else {
            0
        },
        if 1 <= piece <= 6 {
            6 - piece
        } else if -6 <= piece <= -1 {
            6 + piece
        } else {
            0
        },
    )
}

/// Where the picture of a piece is found: side, then kind.
pub fn indice_imagen(pieza: i16) -> (r: (usize, usize))
    ensures
        r.0 == picture_of(pieza as int).0,
        r.1 == picture_of(pieza as int).1,
        r.0 < 2,
        r.1 < 6,
{
    let jugador: usize = if pieza > 0 {
        1
    } else {
        0
    };
    let tipo: usize = if 1 <= pieza && pieza <= 6 {
        (6 - pieza) as usize
    } else if -6 <= pieza && pieza <= -1 {
        (6 + pieza) as usize
    } else {
        0
    };
    (jugador, tipo)
}

} // verus!
