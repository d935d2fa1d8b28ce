//! Reading a move in standard algebraic notation: its parts, the squares it
//! may start from, and the legal move it names.

use vstd::prelude::*;
use crate::ataque::{attacked, es_atacada, ray_square};
use crate::defs::{
    abs_int, columna, en_tablero, fila, on_board, square_at, BISHOP_DELTA, KING_DELTA,
    KNIGHT_DELTA, PAWN_DELTA, PROMOTION_BISHOP, PROMOTION_KNIGHT, PROMOTION_QUEEN, PROMOTION_ROOK,
    QUEEN_DELTA, ROOK_DELTA, W_PAWN,
};
use crate::genera::{generate_moves, legal_moves};
use crate::jugada::move_fits;
use crate::notacion::{casilla_de, is_file, is_rank, limpia, square_of, stripped};
use crate::tablero::{Movim, Posicion, Tablero};
use crate::texto::a_caracteres;

verus! {

/// The parts of a move's text.
#[derive(Clone, Copy, Debug, PartialEq, Eq)]
pub struct SanPartes {
    /// The letter of the piece; none for a pawn.
    pub pieza: Option<char>,
    /// The file of origin, where it is written.
    pub columna: Option<char>,
    /// The rank of origin, where it is written.
    pub fila: Option<char>,
    /// The file of the destination.
    pub destino_columna: char,
    /// The rank of the destination.
    pub destino_fila: char,
    /// The letter of the promotion, where it is written.
    pub promo: Option<char>,
}

/// A letter that names a piece in a move's text.
pub open spec fn is_piece_initial(c: char) -> bool {
    c == 'N' || c == 'B' || c == 'K' || c == 'R' || c == 'Q'
}

/// A letter that may stand for a promotion.
pub open spec fn is_promo_letter(c: char) -> bool {
    c == 'n' || c == 'b' || c == 'r' || c == 'q' || c == 'k' || c == 'N' || c == 'B' || c == 'R'
        || c == 'Q' || c == 'K'
}

/// What may follow a move: nothing, one `#`, or backslashes.
pub open spec fn tail_ok(s: Seq<char>, j: int) -> bool {
    ||| j == s.len()
    ||| j + 1 == s.len() && s[j] == '#'
    ||| j < s.len() && forall|k: int| j <= k < s.len() ==> s[k] == '\\'
}

/// The end of a move's text from place `j` on: an `x` or none, the
/// destination, a promotion letter or none, and the tail. What comes back is
/// the destination's file and rank and the promotion letter.
pub open spec fn san_rest(s: Seq<char>, j: int) -> Option<(char, char, Option<char>)> {
    let j1 = if 0 <= j < s.len() && s[j] == 'x' {
        j + 1
    } else {
        j
    };
    if 0 <= j1 && j1 + 2 <= s.len() && is_file(s[j1]) && is_rank(s[j1 + 1]) {
        let j2 = j1 + 2;
        if j2 < s.len() && is_promo_letter(s[j2]) {
            if tail_ok(s, j2 + 1) {
                Some((s[j1], s[j1 + 1], Some(s[j2])))
            } else {
                None
            }
        } else if tail_ok(s, j2) {
            Some((s[j1], s[j1 + 1], None))
        } else {
            None
        }
    } else {
        None
    }
}

/// The parts with the end of the text filled in.
pub open spec fn with_rest(
    pieza: Option<char>,
    columna: Option<char>,
    fila: Option<char>,
    rest: (char, char, Option<char>),
) -> SanPartes {
    SanPartes {
        pieza,
        columna,
        fila,
        destino_columna: rest.0,
        destino_fila: rest.1,
        promo: rest.2,
    }
}

/// The parts of a move's text without `=`: a piece letter or none, a file
/// and a rank of origin or none of them, an `x` or none, the destination, a
/// promotion letter or none, and the tail. Where the text can be read in
/// more than one way, a file of origin is read rather than none, and then a
/// rank of origin rather than none.
pub open spec fn san_tokens(s: Seq<char>) -> Option<SanPartes> {
    let pieza = if s.len() > 0 && is_piece_initial(s[0]) {
        Some(s[0])
    } else {
        None
    };
    let i: int = if pieza is Some {
        1
    } else {
        0
    };
    if i + 2 <= s.len() && is_file(s[i]) && is_rank(s[i + 1]) && san_rest(s, i + 2) is Some {
        Some(with_rest(pieza, Some(s[i]), Some(s[i + 1]), san_rest(s, i + 2)->0))
    } else if i + 1 <= s.len() && is_file(s[i]) && san_rest(s, i + 1) is Some {
        Some(with_rest(pieza, Some(s[i]), None, san_rest(s, i + 1)->0))
    } else if i + 1 <= s.len() && is_rank(s[i]) && san_rest(s, i + 1) is Some {
        Some(with_rest(pieza, None, Some(s[i]), san_rest(s, i + 1)->0))
    } else if san_rest(s, i) is Some {
        Some(with_rest(pieza, None, None, san_rest(s, i)->0))
    } else {
        None
    }
}

fn es_columna(c: char) -> (b: bool)
    ensures
        b == is_file(c),
{
    c >= 'a' && c <= 'h'
}

fn es_fila(c: char) -> (b: bool)
    ensures
        b == is_rank(c),
{
    c >= '1' && c <= '8'
}

fn es_letra_promo(c: char) -> (b: bool)
    ensures
        b == is_promo_letter(c),
{
    c == 'n' || c == 'b' || c == 'r' || c == 'q' || c == 'k' || c == 'N' || c == 'B' || c == 'R'
        || c == 'Q' || c == 'K'
}

/// Whether the text from place `j` on is a tail.
fn cola(s: &Vec<char>, j: usize) -> (b: bool)
    requires
        j <= s.len(),
    ensures
        b == tail_ok(s@, j as int),
{
    if j == s.len() {
        return true;
    }
    if j + 1 == s.len() && s[j] == '#' {
        return true;
    }
    let mut k: usize = j;
    while k < s.len()
        invariant
            j <= k <= s.len(),
            j < s.len(),
            !(j + 1 == s.len() && s@[j as int] == '#'),
            forall|i: int| j <= i < k ==> s@[i] == '\\',
        decreases s.len() - k,
    {
        if s[k] != '\\' {
            assert(s@[k as int] != '\\');
            return false;
        }
        k += 1;
    }
    true
}

/// Reads the end of a move's text from place `j` on.
fn resto(s: &Vec<char>, j: usize) -> (r: Option<(char, char, Option<char>)>)
    requires
        j <= s.len(),
    ensures
        r == san_rest(s@, j as int),
{
    let n = s.len();
    let j1: usize = if j < n && s[j] == 'x' {
        j + 1
    } else {
        j
    };
    if n - j1 >= 2 && es_columna(s[j1]) && es_fila(s[j1 + 1]) {
        let j2 = j1 + 2;
        if j2 < n && es_letra_promo(s[j2]) {
            if cola(s, j2 + 1) {
                Some((s[j1], s[j1 + 1], Some(s[j2])))
            } else {
                None
            }
        } else if cola(s, j2) {
            Some((s[j1], s[j1 + 1], None))
        } else {
            None
        }
    } else {
        None
    }
}

/// Puts the parts of a move's text together.
fn con_resto(
    pieza: Option<char>,
    columna: Option<char>,
    fila: Option<char>,
    rest: (char, char, Option<char>),
) -> (p: SanPartes)
    ensures
        p == with_rest(pieza, columna, fila, rest),
{
    SanPartes {
        pieza,
        columna,
        fila,
        destino_columna: rest.0,
        destino_fila: rest.1,
        promo: rest.2,
    }
}

/// Reads the parts of a move's text.
pub fn partes_san(s: &Vec<char>) -> (r: Option<SanPartes>)
    ensures
        r == san_tokens(s@),
{
    let n = s.len();
    let pieza = if n > 0 && (s[0] == 'N' || s[0] == 'B' || s[0] == 'K' || s[0] == 'R' || s[0]
        == 'Q') {
        Some(s[0])
    } else {
        None
    };
    let i: usize = if pieza.is_some() {
        1
    } else {
        0
    };
    if i + 2 <= n && es_columna(s[i]) && es_fila(s[i + 1]) {
        if let Some(rest) = resto(s, i + 2) {
            return Some(con_resto(pieza, Some(s[i]), Some(s[i + 1]), rest));
        }
    }
    if i + 1 <= n && es_columna(s[i]) {
        if let Some(rest) = resto(s, i + 1) {
            return Some(con_resto(pieza, Some(s[i]), None, rest));
        }
    }
    if i + 1 <= n && es_fila(s[i]) {
        if let Some(rest) = resto(s, i + 1) {
            return Some(con_resto(pieza, None, Some(s[i]), rest));
        }
    }
    if let Some(rest) = resto(s, i) {
        return Some(con_resto(pieza, None, None, rest));
    }
    None
}

/// The piece that a move's text names for the side to move: the pawn where
/// it names none.
pub open spec fn san_piece_code(pieza: Option<char>, side: int) -> int {
    let kind: int = match pieza {
        Some(c) => if c == 'N' {
            5
        } else if c == 'B' {
            4
        } else if c == 'R' {
            3
        } else if c == 'Q' {
            2
        } else if c == 'K' {
            1
        } else {
            0
        },
        None => 6,
    };
    if side == 1 {
        kind
    } else {
        -kind
    }
}

/// The step set by which a piece is looked for.
pub open spec fn deltas_of(piece: int) -> Seq<i16> {
    let kind = abs_int(piece);
    if kind == 5 {
        KNIGHT_DELTA@
    } else if kind == 4 {
        BISHOP_DELTA@
    } else if kind == 3 {
        ROOK_DELTA@
    } else if kind == 2 {
        QUEEN_DELTA@
    } else if kind == 1 {
        KING_DELTA@
    } else {
        PAWN_DELTA@
    }
}

/// The squares on the line from `to` by step `d`, up to `k` steps away,
/// that lie on the board.
pub open spec fn line_squares(to: int, d: int, k: int) -> Seq<int>
    decreases k,
{
    if k <= 0 {
        Seq::empty()
    } else {
        line_squares(to, d, k - 1) + if on_board(ray_square(to, d, k)) {
            seq![ray_square(to, d, k)]
        } else {
            Seq::empty()
        }
    }
}

/// The squares from which `piece` may have come to `to` by step `d`.
///
/// A pawn comes from the square a step behind `to` if a pawn of the side to
/// move stands there. A knight or king comes from the square a step away if
/// anything stands there. A bishop, rook or queen may come from any square
/// of the line, but only where a piece of the side to move attacks `to`.
/// An unused step of a pawn, knight or king gives the square a1.
///
/// For the sliding pieces this is wider than the squares from which the
/// way to `to` is free, and it hangs on an attack by any piece of the side,
/// not by the one that moves: which origin holds the piece and has a free
/// way is left to the legal moves that the origins are matched with.
pub open spec fn origin_for(p: Posicion, piece: int, to: int, d: int) -> Seq<int> {
    let kind = abs_int(piece);
    if kind == 6 {
        if d == 0 {
            seq![0int]
        } else {
            let orig = if p.to_move == 1 {
                to - d
            } else {
                to + d
            };
            if on_board(orig) && p.at(orig) == (if p.to_move == 1 {
                W_PAWN as int
            } else {
                -W_PAWN as int
            }) {
                seq![orig]
            } else {
                Seq::empty()
            }
        }
    } else if kind == 5 || kind == 1 {
        if d == 0 {
            seq![0int]
        } else if on_board(to + d) && p.at(to + d) != 0 {
            seq![to + d]
        } else {
            Seq::empty()
        }
    } else if d != 0 && attacked(p, to) {
        line_squares(to, d, 8)
    } else {
        Seq::empty()
    }
}

/// The squares from which `piece` may have come to `to` by the first `n`
/// steps of its step set.
pub open spec fn origins_upto(p: Posicion, piece: int, to: int, n: int) -> Seq<int>
    decreases n,
{
    if n <= 0 {
        Seq::empty()
    } else {
        origins_upto(p, piece, to, n - 1) + origin_for(
            p,
            piece,
            to,
            deltas_of(piece)[n - 1] as int,
        )
    }
}

/// The squares from which `piece` may have come to `to`.
pub open spec fn origins(p: Posicion, piece: int, to: int) -> Seq<int> {
    origins_upto(p, piece, to, 8)
}

/// A list of square indices as numbers.
pub open spec fn ints(v: Seq<i16>) -> Seq<int> {
    v.map_values(|x: i16| x as int)
}

proof fn lemma_ints_push(v: Seq<i16>, x: i16)
    ensures
        ints(v.push(x)) == ints(v).push(x as int),
{
    assert(ints(v.push(x)) =~= ints(v).push(x as int));
}

/// Adds the squares of the line from `hasta` by step `d`.
fn origenes_linea(hasta: i16, d: i16, posibles: &mut Vec<i16>)
    requires
        on_board(hasta as int),
        -17 <= d <= 17,
    ensures
        ints(final(posibles)@) == ints(old(posibles)@) + line_squares(hasta as int, d as int, 8),
{
    let mut acumula: i16 = hasta + d;
    let mut k: usize = 0;
    assert(ints(posibles@) =~= ints(old(posibles)@) + line_squares(hasta as int, d as int, 0));
    while k < 8
        invariant
            0 <= k <= 8,
            on_board(hasta as int),
            -17 <= d <= 17,
            acumula == ray_square(hasta as int, d as int, k + 1),
            ints(posibles@) == ints(old(posibles)@) + line_squares(
                hasta as int,
                d as int,
                k as int,
            ),
        decreases 8 - k,
    {
        let ghost antes = posibles@;
        assert(-17 * (k + 1) <= (k + 1) * d <= 17 * (k + 1)) by (nonlinear_arith)
            requires
                -17 <= d <= 17,
                0 <= k,
        ;
        if en_tablero(acumula) {
            posibles.push(acumula);
            proof {
                lemma_ints_push(antes, acumula);
            }
        }
        assert(ray_square(hasta as int, d as int, k + 2) == acumula + d) by (nonlinear_arith)
            requires
                acumula == ray_square(hasta as int, d as int, k + 1),
        ;
        assert(-17 * (k + 2) <= (k + 2) * d <= 17 * (k + 2)) by (nonlinear_arith)
            requires
                -17 <= d <= 17,
                0 <= k,
        ;
        acumula += d;
        k += 1;
        assert(ints(posibles@) =~= ints(old(posibles)@) + line_squares(
            hasta as int,
            d as int,
            k as int,
        ));
    }
}

/// Adds the squares from which `pieza` may have come to `hasta` by step
/// `d`. `atacada` says whether the side to move attacks `hasta`.
fn origenes_paso(
    board: &Tablero,
    pieza: i16,
    hasta: i16,
    d: i16,
    atacada: bool,
    posibles: &mut Vec<i16>,
)
    requires
        board@.sound(),
        on_board(hasta as int),
        -33 <= d <= 33,
        1 <= abs_int(pieza as int) <= 6,
        abs_int(pieza as int) != 5 && abs_int(pieza as int) != 1 && abs_int(pieza as int) != 6
            ==> -17 <= d <= 17,
        atacada == attacked(board@, hasta as int),
    ensures
        ints(final(posibles)@) == ints(old(posibles)@) + origin_for(
            board@,
            pieza as int,
            hasta as int,
            d as int,
        ),
{
    let ghost antes = posibles@;
    let kind: i16 = if pieza < 0 {
        -pieza
    } else {
        pieza
    };
    if kind == 6 {
        if d == 0 {
            posibles.push(0);
        } else {
            let orig: i16 = if board.to_move == 1 {
                hasta - d
            } else {
                hasta + d
            };
            let peon: i16 = if board.to_move == 1 {
                W_PAWN
            } else {
                -W_PAWN
            };
            if en_tablero(orig) && board.board_array[orig as usize] == peon {
                posibles.push(orig);
            }
        }
    } else if kind == 5 || kind == 1 {
        if d == 0 {
            posibles.push(0);
        } else {
            let orig: i16 = hasta + d;
            if en_tablero(orig) && board.board_array[orig as usize] != 0 {
                posibles.push(orig);
            }
        }
    } else if d != 0 && atacada {
        origenes_linea(hasta, d, posibles);
        return ;
    }
    proof {
        if posibles@.len() > antes.len() {
            lemma_ints_push(antes, posibles@.last());
            assert(posibles@ =~= antes.push(posibles@.last()));
        }
        assert(ints(posibles@) =~= ints(antes) + origin_for(
            board@,
            pieza as int,
            hasta as int,
            d as int,
        ));
    }
}

/// The step set by which a piece is looked for.
fn desplazamiento(pieza: i16) -> (delta: [i16; 8])
    requires
        1 <= abs_int(pieza as int) <= 6,
    ensures
        delta@ == deltas_of(pieza as int),
        forall|i: int| 0 <= i < 8 ==> -33 <= #[trigger] delta@[i] <= 33,
        abs_int(pieza as int) != 5 ==> forall|i: int| 0 <= i < 8 ==> -32 <= #[trigger] delta@[i] <= 32,
        2 <= abs_int(pieza as int) <= 4 ==> forall|i: int|
            0 <= i < 8 ==> -17 <= #[trigger] delta@[i] <= 17,
{
    let kind: i16 = if pieza < 0 {
        -pieza
    } else {
        pieza
    };
    if kind == 5 {
        KNIGHT_DELTA
    } else if kind == 4 {
        BISHOP_DELTA
    } else if kind == 3 {
        ROOK_DELTA
    } else if kind == 2 {
        QUEEN_DELTA
    } else if kind == 1 {
        KING_DELTA
    } else {
        PAWN_DELTA
    }
}

/// The squares from which `pieza` may have come to `hasta`.
pub fn origenes(board: &Tablero, pieza: i16, hasta: i16) -> (posibles: Vec<i16>)
    requires
        board@.sound(),
        on_board(hasta as int),
        1 <= abs_int(pieza as int) <= 6,
    ensures
        ints(posibles@) == origins(board@, pieza as int, hasta as int),
        forall|i: int| 0 <= i < posibles@.len() ==> on_board(#[trigger] posibles@[i] as int),
{
    let delta = desplazamiento(pieza);
    let atacada = es_atacada(board, hasta);
    let mut posibles: Vec<i16> = Vec::new();
    let mut j: usize = 0;
    assert(ints(posibles@) =~= origins_upto(board@, pieza as int, hasta as int, 0));
    while j < 8
        invariant
            0 <= j <= 8,
            board@.sound(),
            on_board(hasta as int),
            1 <= abs_int(pieza as int) <= 6,
            delta@ == deltas_of(pieza as int),
            forall|i: int| 0 <= i < 8 ==> -33 <= #[trigger] delta@[i] <= 33,
            2 <= abs_int(pieza as int) <= 4 ==> forall|i: int|
                0 <= i < 8 ==> -17 <= #[trigger] delta@[i] <= 17,
            atacada == attacked(board@, hasta as int),
            ints(posibles@) == origins_upto(board@, pieza as int, hasta as int, j as int),
        decreases 8 - j,
    {
        origenes_paso(board, pieza, hasta, delta[j], atacada, &mut posibles);
        j += 1;
    }
    proof {
        lemma_origins_on_board(board@, pieza as int, hasta as int, 8);
        assert forall|i: int| 0 <= i < posibles@.len() implies on_board(
            #[trigger] posibles@[i] as int,
        ) by {
            assert(ints(posibles@)[i] == posibles@[i] as int);
        }
    }
    posibles
}

proof fn lemma_line_on_board(to: int, d: int, k: int)
    ensures
        forall|i: int|
            0 <= i < line_squares(to, d, k).len() ==> on_board(#[trigger] line_squares(to, d, k)[i]),
    decreases k,
{
    if k > 0 {
        lemma_line_on_board(to, d, k - 1);
        let a = line_squares(to, d, k - 1);
        assert forall|i: int| 0 <= i < line_squares(to, d, k).len() implies on_board(
            #[trigger] line_squares(to, d, k)[i],
        ) by {
            if i < a.len() {
                assert(line_squares(to, d, k)[i] == a[i]);
            }
        }
    }
}

proof fn lemma_origins_on_board(p: Posicion, piece: int, to: int, n: int)
    ensures
        forall|i: int|
            0 <= i < origins_upto(p, piece, to, n).len() ==> on_board(
                #[trigger] origins_upto(p, piece, to, n)[i],
            ),
    decreases n,
{
    if n > 0 {
        lemma_origins_on_board(p, piece, to, n - 1);
        let d = deltas_of(piece)[n - 1] as int;
        lemma_line_on_board(to, d, 8);
        let a = origins_upto(p, piece, to, n - 1);
        let b = origin_for(p, piece, to, d);
        assert forall|i: int| 0 <= i < (a + b).len() implies on_board(#[trigger] (a + b)[i]) by {
            if i < a.len() {
                assert((a + b)[i] == a[i]);
            } else {
                assert((a + b)[i] == b[i - a.len()]);
            }
        }
    }
}

/// The squares of file `f`, rank 1 first.
pub open spec fn file_squares(f: int) -> Seq<int> {
    Seq::new(8, |j: int| square_at(f, j))
}

/// The squares of rank `r`, file a first.
pub open spec fn rank_squares(r: int) -> Seq<int> {
    Seq::new(8, |j: int| square_at(j, r))
}

/// The squares on which a capturing pawn written with file `f` is looked
/// for: that file, and then the files next to it.
pub open spec fn pawn_files(f: int) -> Seq<int> {
    file_squares(f) + if f == 0 {
        file_squares(1)
    } else if f == 7 {
        file_squares(6)
    } else {
        file_squares(f + 1) + file_squares(f - 1)
    }
}

/// The first square of `s` of which `pred` holds, -1 for none.
pub open spec fn first_square(s: Seq<int>, pred: spec_fn(int) -> bool) -> int
    decreases s.len(),
{
    if s.len() == 0 {
        -1
    } else if pred(s[0]) {
        s[0]
    } else {
        first_square(s.drop_first(), pred)
    }
}

/// Whether `piece` stands on a square, which, if `among` is set, is one of
/// `origins`.
pub open spec fn stands_on(p: Posicion, piece: int, origins: Seq<int>, among: bool) -> spec_fn(
    int,
) -> bool {
    |sq: int| p.at(sq) == piece && (among ==> origins.contains(sq))
}

/// The square of origin that a move's text points out.
///
/// A file and a rank name it. A file alone points at the first square of
/// the file, for a pawn then of the files next to it, that holds the piece
/// and is one of `origins`. A rank alone points at the first square of the
/// rank that holds the piece. Where nothing is found, or written, the
/// result is -1.
pub open spec fn chosen_origin(p: Posicion, piece: int, t: SanPartes, origins: Seq<int>) -> int {
    match (t.columna, t.fila) {
        (Some(c), Some(r)) => square_of(c, r),
        (Some(c), None) => first_square(
            if abs_int(piece) == 6 {
                pawn_files(c as int - 'a' as int)
            } else {
                file_squares(c as int - 'a' as int)
            },
            stands_on(p, piece, origins, true),
        ),
        (None, Some(r)) => first_square(
            rank_squares(r as int - '1' as int),
            stands_on(p, piece, origins, false),
        ),
        (None, None) => -1,
    }
}

/// The squares of the file and of the rank that a move's text gives for
/// its origin; nothing for what it does not give.
pub fn desambigua(grupo2: Option<char>, grupo3: Option<char>) -> (r: (Vec<i16>, Vec<i16>))
    requires
        grupo2 is Some ==> is_file(grupo2->0),
        grupo3 is Some ==> is_rank(grupo3->0),
    ensures
        ints(r.0@) == (match grupo2 {
            Some(c) => file_squares(c as int - 'a' as int),
            None => Seq::empty(),
        }),
        ints(r.1@) == (match grupo3 {
            Some(c) => rank_squares(c as int - '1' as int),
            None => Seq::empty(),
        }),
{
    let mut col: Vec<i16> = Vec::new();
    let mut fil: Vec<i16> = Vec::new();
    if let Some(c) = grupo2 {
        pon_columna_de((c as u32 - 'a' as u32) as usize, &mut col);
    }
    if let Some(c) = grupo3 {
        let f = fila((c as u32 - '1' as u32) as usize);
        let mut j: usize = 0;
        while j < 8
            invariant
                0 <= j <= 8,
                is_rank(c),
                forall|k: int| 0 <= k < 8 ==> #[trigger] f.inds@[k] == square_at(
                    k,
                    c as int - '1' as int,
                ),
                fil@.len() == j,
                forall|k: int| 0 <= k < j ==> #[trigger] fil@[k] == f.inds@[k],
            decreases 8 - j,
        {
            fil.push(f.inds[j]);
            j += 1;
        }
        assert(ints(fil@) =~= rank_squares(c as int - '1' as int));
    }
    assert(grupo2 is None ==> ints(col@) =~= Seq::<int>::empty());
    assert(grupo3 is None ==> ints(fil@) =~= Seq::<int>::empty());
    (col, fil)
}

/// Adds the squares of the file numbered `i`.
fn pon_columna_de(i: usize, col: &mut Vec<i16>)
    requires
        i < 8,
    ensures
        ints(final(col)@) == ints(old(col)@) + file_squares(i as int),
{
    let c = columna(i);
    let mut j: usize = 0;
    while j < 8
        invariant
            0 <= j <= 8,
            i < 8,
            forall|k: int| 0 <= k < 8 ==> #[trigger] c.inds@[k] == square_at(i as int, k),
            col@.len() == old(col)@.len() + j,
            forall|k: int| 0 <= k < old(col)@.len() ==> #[trigger] col@[k] == old(col)@[k],
            forall|k: int| 0 <= k < j ==> #[trigger] col@[old(col)@.len() + k] == c.inds@[k],
        decreases 8 - j,
    {
        col.push(c.inds[j]);
        j += 1;
    }
    assert forall|k: int| 0 <= k < ints(col@).len() implies ints(col@)[k] == (ints(old(col)@)
        + file_squares(i as int))[k] by {
        if k >= old(col)@.len() {
            assert(col@[old(col)@.len() + (k - old(col)@.len())] == c.inds@[k - old(col)@.len()]);
        } else {
            assert(col@[k] == old(col)@[k]);
        }
    }
    assert(ints(col@) =~= ints(old(col)@) + file_squares(i as int));
}

/// Whether `sq` stands in `v`.
fn esta_en(v: &Vec<i16>, sq: i16) -> (b: bool)
    ensures
        b == ints(v@).contains(sq as int),
{
    let mut i: usize = 0;
    while i < v.len()
        invariant
            0 <= i <= v.len(),
            forall|k: int| 0 <= k < i ==> v@[k] != sq,
        decreases v.len() - i,
    {
        if v[i] == sq {
            assert(ints(v@)[i as int] == sq as int);
            return true;
        }
        i += 1;
    }
    assert forall|k: int| 0 <= k < ints(v@).len() implies ints(v@)[k] != sq as int by {
        assert(ints(v@)[k] == v@[k] as int);
    }
    false
}

/// The first of the squares `cands` that holds `pieza` and, if `entre` is
/// set, is one of `posibles`; -1 for none.
fn primera_casilla(
    board: &Tablero,
    cands: &Vec<i16>,
    pieza: i16,
    posibles: &Vec<i16>,
    entre: bool,
) -> (sq: i16)
    requires
        forall|i: int| 0 <= i < cands@.len() ==> on_board(#[trigger] cands@[i] as int),
    ensures
        sq == first_square(
            ints(cands@),
            stands_on(board@, pieza as int, ints(posibles@), entre),
        ),
{
    let ghost pred = stands_on(board@, pieza as int, ints(posibles@), entre);
    let ghost entero = ints(cands@);
    let mut x: usize = 0;
    assert(entero.skip(0) =~= entero);
    while x < cands.len()
        invariant
            0 <= x <= cands.len(),
            entero == ints(cands@),
            pred == stands_on(board@, pieza as int, ints(posibles@), entre),
            forall|i: int| 0 <= i < cands@.len() ==> on_board(#[trigger] cands@[i] as int),
            first_square(entero, pred) == first_square(entero.skip(x as int), pred),
        decreases cands.len() - x,
    {
        let c = cands[x];
        assert(on_board(cands@[x as int] as int));
        assert(entero.skip(x as int)[0] == c as int);
        assert(entero.skip(x as int).drop_first() =~= entero.skip(x + 1));
        if board.board_array[c as usize] == pieza && (!entre || esta_en(posibles, c)) {
            return c;
        }
        x += 1;
    }
    -1
}

/// The square of origin that the parts of a move's text point out.
fn elige_origen(board: &Tablero, pieza: i16, partes: &SanPartes, posibles: &Vec<i16>) -> (sq: i16)
    requires
        partes.columna is Some ==> is_file(partes.columna->0),
        partes.fila is Some ==> is_rank(partes.fila->0),
    ensures
        sq == chosen_origin(board@, pieza as int, *partes, ints(posibles@)),
{
    match (partes.columna, partes.fila) {
        (Some(c), Some(r)) => casilla_de(c, r),
        (Some(c), None) => {
            let i: usize = (c as u32 - 'a' as u32) as usize;
            let mut cands: Vec<i16> = Vec::new();
            assert(ints(cands@) =~= Seq::<int>::empty());
            pon_columna_de(i, &mut cands);
            if pieza == W_PAWN || pieza == -W_PAWN {
                if i == 0 {
                    pon_columna_de(1, &mut cands);
                } else if i == 7 {
                    pon_columna_de(6, &mut cands);
                } else {
                    pon_columna_de(i + 1, &mut cands);
                    pon_columna_de(i - 1, &mut cands);
                }
                assert(ints(cands@) =~= pawn_files(i as int));
            } else {
                assert(ints(cands@) =~= file_squares(i as int));
            }
            proof {
                lemma_files_on_board(i as int);
                assert forall|k: int| 0 <= k < cands@.len() implies on_board(
                    #[trigger] cands@[k] as int,
                ) by {
                    assert(ints(cands@)[k] == cands@[k] as int);
                }
            }
            primera_casilla(board, &cands, pieza, posibles, true)
        },
        (None, Some(r)) => {
            let (_, cands) = desambigua(None, Some(r));
            proof {
                let rank = r as int - '1' as int;
                assert(ints(cands@).len() == cands@.len());
                assert(rank_squares(rank).len() == 8);
                assert forall|k: int| 0 <= k < cands@.len() implies on_board(
                    #[trigger] cands@[k] as int,
                ) by {
                    assert(ints(cands@)[k] == cands@[k] as int);
                    assert(rank_squares(rank)[k] == square_at(k, rank));
                }
            }
            primera_casilla(board, &cands, pieza, posibles, false)
        },
        (None, None) => -1,
    }
}

proof fn lemma_files_on_board(f: int)
    requires
        0 <= f < 8,
    ensures
        forall|k: int| 0 <= k < pawn_files(f).len() ==> on_board(#[trigger] pawn_files(f)[k]),
        forall|k: int| 0 <= k < file_squares(f).len() ==> on_board(#[trigger] file_squares(f)[k]),
{
}

/// The kind of move that the promotion letter of a move's text asks for: 0
/// where none is written, -1 for a letter that is none of Q, R, B, N.
pub open spec fn san_promotion(promo: Option<char>) -> int {
    match promo {
        None => 0,
        Some(c) => if c == 'Q' {
            PROMOTION_QUEEN as int
        } else if c == 'R' {
            PROMOTION_ROOK as int
        } else if c == 'B' {
            PROMOTION_BISHOP as int
        } else if c == 'N' {
            PROMOTION_KNIGHT as int
        } else {
            -1
        },
    }
}

/// Whether move `m` is the one that the text names, for the origin
/// `origin`.
///
/// It must be a move of `piece` from `origin` to `to`. Where the text gives
/// something of the origin, `origin` must be the square it points out, and
/// the move's kind must be the promotion asked for, if one is asked for.
/// Where it gives nothing of the origin, the move's kind must be the
/// promotion asked for, or ordinary if none is.
pub open spec fn accepted(
    m: Movim,
    piece: int,
    origin: int,
    to: int,
    written: bool,
    chosen: int,
    promotion: int,
) -> bool {
    m.piece_moving == piece && m.from_index == origin && m.to_index == to && if written {
        origin == chosen && (promotion < PROMOTION_QUEEN || m.move_type == promotion)
    } else {
        m.move_type == promotion
    }
}

/// The moves that the text names for the origin `origin`.
pub open spec fn accepts(
    piece: int,
    origin: int,
    to: int,
    written: bool,
    chosen: int,
    promotion: int,
) -> spec_fn(Movim) -> bool {
    |m: Movim| accepted(m, piece, origin, to, written, chosen, promotion)
}

/// The first move of `moves` of which `pred` holds.
pub open spec fn first_move(moves: Seq<Movim>, pred: spec_fn(Movim) -> bool) -> Option<Movim>
    decreases moves.len(),
{
    if moves.len() == 0 {
        None
    } else if pred(moves[0]) {
        Some(moves[0])
    } else {
        first_move(moves.drop_first(), pred)
    }
}

/// The move that the text names: for the first of the origins from place
/// `i` on that has one, the first move that is accepted; the move that
/// stands for "no move" where there is none.
pub open spec fn resolve(
    moves: Seq<Movim>,
    origins: Seq<int>,
    i: int,
    piece: int,
    to: int,
    written: bool,
    chosen: int,
    promotion: int,
) -> Movim
    decreases origins.len() - i,
{
    if i < 0 || i >= origins.len() {
        Movim::nulo()
    } else {
        match first_move(moves, accepts(piece, origins[i], to, written, chosen, promotion)) {
            Some(m) => m,
            None => resolve(moves, origins, i + 1, piece, to, written, chosen, promotion),
        }
    }
}

/// Whether a move is the move of `piece` from `from` to `to`.
pub open spec fn goes(piece: int, from: int, to: int) -> spec_fn(Movim) -> bool {
    |m: Movim| m.piece_moving == piece && m.from_index == from && m.to_index == to
}

/// The castle that the text names, if it names one and it is among `moves`.
pub open spec fn castle_named(p: Posicion, moves: Seq<Movim>, clean: Seq<char>) -> Movim {
    let short = clean =~= seq!['O', '-', 'O'];
    let long = clean =~= seq!['O', '-', 'O', '-', 'O'];
    let piece: int = if p.to_move == 1 {
        1
    } else {
        -1
    };
    let from: int = if p.to_move == 1 {
        4
    } else {
        116
    };
    let to = if short {
        from + 2
    } else {
        from - 2
    };
    if short || long {
        match first_move(moves, goes(piece, from, to)) {
            Some(m) => m,
            None => Movim::nulo(),
        }
    } else {
        Movim::nulo()
    }
}

/// The legal move that a text in standard algebraic notation names in
/// position `p`, or the move that stands for "no move".
///
/// The text is read without its decorations. `O-O` and `O-O-O` name the
/// castles. Any other text gives a piece, a destination, perhaps a file or
/// rank of origin and a promotion; the squares the piece may have come from
/// are gone through in order, and for each the legal moves.
pub open spec fn san_move(p: Posicion, san: Seq<char>) -> Movim {
    let clean = stripped(san);
    let moves = legal_moves(p);
    match san_tokens(clean) {
        None => castle_named(p, moves, clean),
        Some(t) => {
            let to = square_of(t.destino_columna, t.destino_fila);
            let piece = san_piece_code(t.pieza, p.to_move);
            let from = origins(p, piece, to);
            let written = t.columna is Some || t.fila is Some;
            let chosen = if written {
                chosen_origin(p, piece, t, from)
            } else {
                -1
            };
            if san_promotion(t.promo) < 0 {
                Movim::nulo()
            } else {
                resolve(moves, from, 0, piece, to, written, chosen, san_promotion(t.promo))
            }
        },
    }
}

/// The first of the moves that goes from `origen` to `hasta` as the text
/// asks.
fn primera_jugada(
    legales: &Vec<Movim>,
    pieza: i16,
    origen: i16,
    hasta: i16,
    confusa: bool,
    elegido: i16,
    promotion: i16,
) -> (r: Option<Movim>)
    requires
        0 <= origen,
        0 <= hasta,
    ensures
        r == first_move(
            legales@,
            accepts(
                pieza as int,
                origen as int,
                hasta as int,
                confusa,
                elegido as int,
                promotion as int,
            ),
        ),
        r is Some ==> legales@.contains(r->0),
{
    let ghost pred = accepts(
        pieza as int,
        origen as int,
        hasta as int,
        confusa,
        elegido as int,
        promotion as int,
    );
    let mut k: usize = 0;
    assert(legales@.skip(0) =~= legales@);
    while k < legales.len()
        invariant
            0 <= k <= legales.len(),
            0 <= origen,
            0 <= hasta,
            pred == accepts(
                pieza as int,
                origen as int,
                hasta as int,
                confusa,
                elegido as int,
                promotion as int,
            ),
            first_move(legales@, pred) == first_move(legales@.skip(k as int), pred),
        decreases legales.len() - k,
    {
        let m = legales[k];
        assert(legales@.skip(k as int)[0] == m);
        assert(legales@.skip(k as int).drop_first() =~= legales@.skip(k + 1));
        if m.piece_moving == pieza && m.from_index == origen as usize && m.to_index
            == hasta as usize {
            let ok = if confusa {
                origen == elegido && (promotion < PROMOTION_QUEEN || m.move_type == promotion)
            } else {
                m.move_type == promotion
            };
            if ok {
                assert(pred(m));
                return Some(m);
            }
        }
        assert(!pred(m));
        k += 1;
    }
    None
}

/// The first of the moves that is the move of `pieza` from `desde` to
/// `hasta`.
fn primera_de(legales: &Vec<Movim>, pieza: i16, desde: usize, hasta: usize) -> (r: Option<Movim>)
    ensures
        r == first_move(legales@, goes(pieza as int, desde as int, hasta as int)),
        r is Some ==> legales@.contains(r->0),
{
    let ghost pred = goes(pieza as int, desde as int, hasta as int);
    let mut k: usize = 0;
    assert(legales@.skip(0) =~= legales@);
    while k < legales.len()
        invariant
            0 <= k <= legales.len(),
            pred == goes(pieza as int, desde as int, hasta as int),
            first_move(legales@, pred) == first_move(legales@.skip(k as int), pred),
        decreases legales.len() - k,
    {
        let m = legales[k];
        assert(legales@.skip(k as int)[0] == m);
        assert(legales@.skip(k as int).drop_first() =~= legales@.skip(k + 1));
        if m.piece_moving == pieza && m.from_index == desde && m.to_index == hasta {
            return Some(m);
        }
        k += 1;
    }
    None
}

/// The piece that a move's text names for the side to move.
fn pieza_san(pieza: Option<char>, bando: i16) -> (code: i16)
    ensures
        code == san_piece_code(pieza, bando as int),
{
    let kind: i16 = match pieza {
        Some(c) => if c == 'N' {
            5
        } else if c == 'B' {
            4
        } else if c == 'R' {
            3
        } else if c == 'Q' {
            2
        } else if c == 'K' {
            1
        } else {
            0
        },
        None => 6,
    };
    if bando == 1 {
        kind
    } else {
        -kind
    }
}

/// The kind of move that a promotion letter asks for.
fn promocion_san(promo: Option<char>) -> (kind: i16)
    ensures
        kind == san_promotion(promo),
{
    match promo {
        None => 0,
        Some(c) => if c == 'Q' {
            PROMOTION_QUEEN
        } else if c == 'R' {
            PROMOTION_ROOK
        } else if c == 'B' {
            PROMOTION_BISHOP
        } else if c == 'N' {
            PROMOTION_KNIGHT
        } else {
            -1
        },
    }
}

/// Goes through the origins and gives the first move that is accepted.
fn resuelve(
    legales: &Vec<Movim>,
    posibles: &Vec<i16>,
    pieza: i16,
    hasta: i16,
    confusa: bool,
    elegido: i16,
    promotion: i16,
) -> (m: Movim)
    requires
        0 <= hasta,
        forall|i: int| 0 <= i < posibles@.len() ==> 0 <= #[trigger] posibles@[i],
    ensures
        m == resolve(
            legales@,
            ints(posibles@),
            0,
            pieza as int,
            hasta as int,
            confusa,
            elegido as int,
            promotion as int,
        ),
        m != Movim::nulo() ==> legales@.contains(m),
{
    let mut i: usize = 0;
    while i < posibles.len()
        invariant
            0 <= i <= posibles.len(),
            0 <= hasta,
            forall|i: int| 0 <= i < posibles@.len() ==> 0 <= #[trigger] posibles@[i],
            resolve(
                legales@,
                ints(posibles@),
                0,
                pieza as int,
                hasta as int,
                confusa,
                elegido as int,
                promotion as int,
            ) == resolve(
                legales@,
                ints(posibles@),
                i as int,
                pieza as int,
                hasta as int,
                confusa,
                elegido as int,
                promotion as int,
            ),
        decreases posibles.len() - i,
    {
        assert(ints(posibles@)[i as int] == posibles@[i as int] as int);
        match primera_jugada(legales, pieza, posibles[i], hasta, confusa, elegido, promotion) {
            Some(m) => {
                return m;
            },
            None => {},
        }
        i += 1;
    }
    Movim::ninguno()
}

/// Finds the legal move that a text in standard algebraic notation names.
pub fn move_from_san(board: &mut Tablero, san: &str) -> (m: Movim)
    requires
        old(board)@.wf(),
    ensures
        m == san_move(old(board)@, san@),
        m.piece_moving != 0 ==> move_fits(old(board)@, m) && legal_moves(old(board)@).contains(m),
        final(board)@ == old(board)@,
        final(board).history == old(board).history,
{
    let ghost p = board@;
    let legales = generate_moves(board);
    let clean_move = limpia(&a_caracteres(san));
    let m = match partes_san(&clean_move) {
        None => {
            let n = clean_move.len();
            let short = n == 3 && clean_move[0] == 'O' && clean_move[1] == '-' && clean_move[2]
                == 'O';
            let long = n == 5 && clean_move[0] == 'O' && clean_move[1] == '-' && clean_move[2]
                == 'O' && clean_move[3] == '-' && clean_move[4] == 'O';
            assert(short == (clean_move@ =~= seq!['O', '-', 'O']));
            assert(long == (clean_move@ =~= seq!['O', '-', 'O', '-', 'O']));
            if short || long {
                let (pieza, desde): (i16, usize) = if board.to_move == 1 {
                    (1, 4)
                } else {
                    (-1, 116)
                };
                let hasta: usize = if short {
                    desde + 2
                } else {
                    desde - 2
                };
                match primera_de(&legales, pieza, desde, hasta) {
                    Some(m) => m,
                    None => Movim::ninguno(),
                }
            } else {
                Movim::ninguno()
            }
        },
        Some(partes) => {
            let hasta = casilla_de(partes.destino_columna, partes.destino_fila);
            let pieza = pieza_san(partes.pieza, board.to_move);
            let posibles = origenes(board, pieza, hasta);
            let confusa = partes.columna.is_some() || partes.fila.is_some();
            let elegido: i16 = if confusa {
                elige_origen(board, pieza, &partes, &posibles)
            } else {
                -1
            };
            let promotion = promocion_san(partes.promo);
            if promotion < 0 {
                Movim::ninguno()
            } else {
                resuelve(&legales, &posibles, pieza, hasta, confusa, elegido, promotion)
            }
        },
    };
    proof {
        if m.piece_moving != 0 {
            assert(m != Movim::nulo());
            assert(legales@.contains(m));
        }
    }
    m
}

} // verus!
