//! A move written in standard algebraic notation and read back is the same
//! move.

use vstd::prelude::*;
use crate::ataque::{attacked, attacks, distance, lemma_ray, ray_square};
use crate::defs::{
    abs_int, attack_class, file_of, on_board, rank_of, square_at, step_delta, BISHOP_DELTA,
    B_PAWN, EN_PASSANT, KING_DELTA, KNIGHT_DELTA, LONG_CASTLE, PAWN_DELTA, PROMOTION_BISHOP,
    PROMOTION_KNIGHT, PROMOTION_QUEEN, PROMOTION_ROOK, QUEEN_DELTA, ROOK_DELTA, SHORT_CASTLE,
    W_PAWN,
};
use crate::genera::{legal_moves, lemma_legal_fits};
use crate::jugada::move_fits;
use crate::fen::FILES;
use crate::notacion::{
    file_text, is_file, is_rank, other_than, san_capture, san_check, san_kind, san_piece,
    san_text, square_of, stripped, trim_check, trim_marks, without, written_as_castle,
};
use crate::texto::{digits_of, DIGITS};
use crate::san::{
    accepted, accepts, castle_named, chosen_origin, deltas_of, file_squares, first_move,
    first_square, goes, is_piece_initial, is_promo_letter, line_squares, origin_for, origins,
    origins_upto, pawn_files, resolve, san_move, san_piece_code, san_promotion, san_rest,
    san_tokens, stands_on, tail_ok, with_rest, SanPartes,
};
use crate::tablero::{Movim, Posicion};

verus! {

/// The first move of which `pred` holds is a move of the list of which
/// `pred` holds.
proof fn lemma_first_move_sound(moves: Seq<Movim>, pred: spec_fn(Movim) -> bool)
    ensures
        first_move(moves, pred) is Some ==> moves.contains(first_move(moves, pred)->0) && pred(
            first_move(moves, pred)->0,
        ),
        first_move(moves, pred) is None ==> forall|j: int|
            0 <= j < moves.len() ==> !pred(#[trigger] moves[j]),
    decreases moves.len(),
{
    if moves.len() > 0 {
        if pred(moves[0]) {
            assert(moves[0] == first_move(moves, pred)->0);
        } else {
            let rest = moves.drop_first();
            lemma_first_move_sound(rest, pred);
            if first_move(rest, pred) is Some {
                let o = first_move(rest, pred)->0;
                let k = choose|k: int| 0 <= k < rest.len() && rest[k] == o;
                assert(moves[k + 1] == o);
            } else {
                assert forall|j: int| 0 <= j < moves.len() implies !pred(#[trigger] moves[j]) by {
                    if j > 0 {
                        assert(rest[j - 1] == moves[j]);
                    }
                }
            }
        }
    }
}

/// Where, whatever the origin, only move `m` is accepted, and its own origin
/// is among the origins still to go through, the move found is `m`.
proof fn lemma_resolve_finds(
    moves: Seq<Movim>,
    origins: Seq<int>,
    i: int,
    piece: int,
    to: int,
    written: bool,
    chosen: int,
    promotion: int,
    m: Movim,
)
    requires
        0 <= i <= origins.len(),
        exists|k: int| i <= k < origins.len() && origins[k] == m.from_index,
        moves.contains(m),
        accepted(m, piece, m.from_index as int, to, written, chosen, promotion),
        forall|k: int, j: int|
            0 <= k < origins.len() && 0 <= j < moves.len() && accepted(
                #[trigger] moves[j],
                piece,
                #[trigger] origins[k],
                to,
                written,
                chosen,
                promotion,
            ) ==> moves[j] == m,
    ensures
        resolve(moves, origins, i, piece, to, written, chosen, promotion) == m,
    decreases origins.len() - i,
{
    let pred = accepts(piece, origins[i], to, written, chosen, promotion);
    lemma_first_move_sound(moves, pred);
    if first_move(moves, pred) is Some {
        let o = first_move(moves, pred)->0;
        let j = choose|j: int| 0 <= j < moves.len() && moves[j] == o;
        assert(accepted(moves[j], piece, origins[i], to, written, chosen, promotion));
    } else {
        let j = choose|j: int| 0 <= j < moves.len() && moves[j] == m;
        assert(!pred(moves[j]));
        assert(origins[i] != m.from_index);
        lemma_resolve_finds(moves, origins, i + 1, piece, to, written, chosen, promotion, m);
    }
}

/// The first square of which `pred` holds is the square at place `i`, if it
/// holds of that square and of none before it.
proof fn lemma_first_square_at(s: Seq<int>, pred: spec_fn(int) -> bool, i: int)
    requires
        0 <= i < s.len(),
        pred(s[i]),
        forall|j: int| 0 <= j < i ==> !pred(#[trigger] s[j]),
    ensures
        first_square(s, pred) == s[i],
    decreases i,
{
    if i > 0 {
        let rest = s.drop_first();
        assert(!pred(s[0]));
        assert(rest[i - 1] == s[i]);
        assert forall|j: int| 0 <= j < i - 1 implies !pred(#[trigger] rest[j]) by {
            assert(rest[j] == s[j + 1]);
        }
        lemma_first_square_at(rest, pred, i - 1);
    }
}

/// A text none of whose characters is taken out stays as it is.
proof fn lemma_filter_keeps(t: Seq<char>, pred: spec_fn(char) -> bool)
    requires
        forall|i: int| 0 <= i < t.len() ==> pred(#[trigger] t[i]),
    ensures
        t.filter(pred) == t,
    decreases t.len(),
{
    reveal(Seq::filter);
    if t.len() > 0 {
        assert forall|i: int| 0 <= i < t.drop_last().len() implies pred(
            #[trigger] t.drop_last()[i],
        ) by {
            assert(t.drop_last()[i] == t[i]);
        }
        lemma_filter_keeps(t.drop_last(), pred);
        assert(pred(t[t.len() - 1]));
        assert(t.drop_last().push(t.last()) =~= t);
    }
}

/// A text made of `O` and `-` has no decorations to take off.
proof fn lemma_castle_text_plain(t: Seq<char>)
    requires
        t.len() > 0,
        forall|i: int| 0 <= i < t.len() ==> #[trigger] t[i] == 'O' || t[i] == '-',
        t.last() == 'O',
    ensures
        stripped(t) == t,
{
    lemma_filter_keeps(t, other_than('='));
}

/// Where one move of a list is the only one of which `pred` holds, it is
/// the first of which it holds.
proof fn lemma_first_move_only(moves: Seq<Movim>, pred: spec_fn(Movim) -> bool, m: Movim)
    requires
        moves.contains(m),
        pred(m),
        forall|i: int| 0 <= i < moves.len() && pred(#[trigger] moves[i]) ==> moves[i] == m,
    ensures
        first_move(moves, pred) == Some(m),
    decreases moves.len(),
{
    if moves.len() > 0 && !pred(moves[0]) {
        let rest = moves.drop_first();
        let k = choose|k: int| 0 <= k < moves.len() && moves[k] == m;
        assert(rest[k - 1] == m);
        assert forall|i: int| 0 <= i < rest.len() && pred(#[trigger] rest[i]) implies rest[i]
            == m by {
            assert(rest[i] == moves[i + 1]);
        }
        lemma_first_move_only(rest, pred, m);
    }
}

/// A legal castle, written in standard algebraic notation and read back,
/// is the same move: whatever position `after` its text is written for.
pub proof fn lemma_castle_read_back(p: Posicion, after: Posicion, m: Movim)
    requires
        p.wf(),
        legal_moves(p).contains(m),
        written_as_castle(m),
    ensures
        san_move(p, san_text(after, m)) == m,
{
    let text = san_text(after, m);
    let moves = legal_moves(p);
    lemma_legal_fits(p, m);
    lemma_castle_text_plain(text);
    assert(san_rest(text, 0) is None);
    assert(san_tokens(text) is None);
    let pred = goes(m.piece_moving as int, m.from_index as int, m.to_index as int);
    assert forall|i: int| 0 <= i < moves.len() && pred(#[trigger] moves[i]) implies moves[i]
        == m by {
        let o = moves[i];
        assert(moves.contains(o));
        lemma_legal_fits(p, o);
        assert(o.move_type == m.move_type);
        assert(o.prev_pos@ == m.prev_pos@);
        assert(o.prev_pos =~= m.prev_pos);
    }
    lemma_first_move_only(moves, pred, m);
    assert(castle_named(p, moves, text) == m);
}

/// What stands in one of two lists stands in the two put together.
proof fn lemma_in_either(a: Seq<int>, b: Seq<int>, x: int)
    requires
        a.contains(x) || b.contains(x),
    ensures
        (a + b).contains(x),
{
    if a.contains(x) {
        let i = choose|i: int| 0 <= i < a.len() && a[i] == x;
        assert((a + b)[i] == x);
    } else {
        let i = choose|i: int| 0 <= i < b.len() && b[i] == x;
        assert((a + b)[a.len() + i] == x);
    }
}

/// An origin found by one of the first `n` steps is among the origins found
/// by them.
proof fn lemma_origins_cover(p: Posicion, piece: int, to: int, n: int, i: int, x: int)
    requires
        0 <= i < n,
        origin_for(p, piece, to, deltas_of(piece)[i] as int).contains(x),
    ensures
        origins_upto(p, piece, to, n).contains(x),
    decreases n,
{
    if i < n - 1 {
        lemma_origins_cover(p, piece, to, n - 1, i, x);
    }
    lemma_in_either(
        origins_upto(p, piece, to, n - 1),
        origin_for(p, piece, to, deltas_of(piece)[n - 1] as int),
        x,
    );
}

/// A square of the board on a line, up to `n` steps away, is among the
/// squares of the line.
proof fn lemma_line_has(to: int, d: int, n: int, k: int)
    requires
        1 <= k <= n,
        on_board(ray_square(to, d, k)),
    ensures
        line_squares(to, d, n).contains(ray_square(to, d, k)),
    decreases n,
{
    let last = if on_board(ray_square(to, d, n)) {
        seq![ray_square(to, d, n)]
    } else {
        Seq::<int>::empty()
    };
    if k < n {
        lemma_line_has(to, d, n - 1, k);
    } else {
        assert(last[0] == ray_square(to, d, k));
    }
    lemma_in_either(line_squares(to, d, n - 1), last, ray_square(to, d, k));
}

/// A step that stands in a step set stands at one of its eight places.
proof fn lemma_step_place(deltas: Seq<i16>, d: int) -> (i: int)
    requires
        deltas.len() == 8,
        deltas[0] == d || deltas[1] == d || deltas[2] == d || deltas[3] == d || deltas[4] == d
            || deltas[5] == d || deltas[6] == d || deltas[7] == d,
    ensures
        0 <= i < 8,
        deltas[i] == d,
{
    if deltas[0] == d {
        0
    } else if deltas[1] == d {
        1
    } else if deltas[2] == d {
        2
    } else if deltas[3] == d {
        3
    } else if deltas[4] == d {
        4
    } else if deltas[5] == d {
        5
    } else if deltas[6] == d {
        6
    } else {
        7
    }
}

/// Whether a move is made by going: it is no castle and no capture en
/// passant.
pub open spec fn plain(m: Movim) -> bool {
    m.move_type != SHORT_CASTLE && m.move_type != LONG_CASTLE && m.move_type != EN_PASSANT
}

/// The square that a move that fits starts from is among the squares that
/// its piece may have come from.
proof fn lemma_origin_in(p: Posicion, m: Movim)
    requires
        p.wf(),
        move_fits(p, m),
        plain(m),
    ensures
        origins(p, m.piece_moving as int, m.to_index as int).contains(m.from_index as int),
{
    let piece = m.piece_moving as int;
    let from = m.from_index as int;
    let to = m.to_index as int;
    let kind = abs_int(piece);
    let deltas = deltas_of(piece);
    assert(-6 <= p.squares[from] <= 6);
    if kind == 6 {
        let d = abs_int(to - from);
        let i = lemma_step_place(deltas, d);
        assert(origin_for(p, piece, to, d)[0] == from);
        lemma_origins_cover(p, piece, to, 8, i, from);
    } else if kind == 5 || kind == 1 {
        let d = from - to;
        let i = lemma_step_place(deltas, d);
        assert(origin_for(p, piece, to, d)[0] == from);
        lemma_origins_cover(p, piece, to, 8, i, from);
    } else {
        let step = step_delta(to - from);
        let k = distance(to - from);
        lemma_ray(from, to, k);
        let d = -step;
        assert(ray_square(to, d, k) == from) by (nonlinear_arith)
            requires
                ray_square(from, step, k) == to,
                d == -step,
        ;
        let i = lemma_step_place(deltas, d);
        assert(attacks(p, from, to));
        assert(attacked(p, to));
        lemma_line_has(to, d, 8, k);
        lemma_origins_cover(p, piece, to, 8, i, from);
    }
}

/// The letter of a promotion, as it is left of a move's text without `=`.
pub open spec fn promo_letter(kind: int) -> Seq<char> {
    if kind == PROMOTION_QUEEN {
        seq!['Q']
    } else if kind == PROMOTION_ROOK {
        seq!['R']
    } else if kind == PROMOTION_BISHOP {
        seq!['B']
    } else if kind == PROMOTION_KNIGHT {
        seq!['N']
    } else {
        Seq::empty()
    }
}

/// What a move's text says before its kind: piece, capture mark and
/// destination.
pub open spec fn san_stem(m: Movim) -> Seq<char> {
    san_piece(m.piece_moving as int) + san_capture(m) + file_text(m.to_index as int) + digits_of(
        rank_of(m.to_index as int) + 1,
    )
}

/// A move's text without its decorations.
pub open spec fn san_core(m: Movim) -> Seq<char> {
    san_stem(m) + promo_letter(m.move_type as int)
}

/// A character of a move's text that no decoration is made of.
pub open spec fn undecorated(c: char) -> bool {
    c != '=' && c != '+' && c != '#' && c != '?' && c != '!'
}

proof fn lemma_stem(m: Movim)
    requires
        on_board(m.from_index as int),
        on_board(m.to_index as int),
    ensures
        san_stem(m).len() >= 2,
        forall|i: int| 0 <= i < san_stem(m).len() ==> undecorated(#[trigger] san_stem(m)[i]),
{
    let a = san_piece(m.piece_moving as int);
    let b = san_capture(m);
    let c = file_text(m.to_index as int);
    let d = digits_of(rank_of(m.to_index as int) + 1);
    let t = san_stem(m);
    assert(c[0] == FILES@[file_of(m.to_index as int)]);
    assert(d[0] == DIGITS@[rank_of(m.to_index as int) + 1]);
    assert forall|i: int| 0 <= i < t.len() implies undecorated(#[trigger] t[i]) by {
        if i < a.len() {
            assert(t[i] == a[i]);
        } else if i < a.len() + b.len() {
            assert(t[i] == b[i - a.len()]);
            if b.len() == 2 {
                assert(b[0] == FILES@[file_of(m.from_index as int)]);
            }
        } else if i < a.len() + b.len() + c.len() {
            assert(t[i] == c[i - a.len() - b.len()]);
        } else {
            assert(t[i] == d[i - a.len() - b.len() - c.len()]);
        }
    }
}

proof fn lemma_drop_equals(kind: int)
    ensures
        without(san_kind(kind), '=') == (if kind == EN_PASSANT {
            san_kind(kind)
        } else {
            promo_letter(kind)
        }),
{
    reveal_with_fuel(Seq::filter, 3);
    let t = san_kind(kind);
    let pred = other_than('=');
    if kind == EN_PASSANT {
        lemma_filter_keeps(t, pred);
    } else if t.len() == 2 {
        assert(t.drop_last() =~= seq!['=']);
        assert(seq!['='].drop_last() =~= Seq::<char>::empty());
        assert(seq!['='].filter(pred) =~= Seq::<char>::empty());
        assert(t.filter(pred) =~= promo_letter(kind));
    } else {
        assert(t.filter(pred) =~= t);
    }
}

/// A text with the decorations of a move's text is stripped to what it was
/// made of.
proof fn lemma_strip(stem: Seq<char>, kind: Seq<char>, letter: Seq<char>, mark: Seq<char>)
    requires
        stem.len() >= 2,
        forall|i: int| 0 <= i < stem.len() ==> undecorated(#[trigger] stem[i]),
        without(kind, '=') == letter,
        forall|i: int| 0 <= i < letter.len() ==> undecorated(#[trigger] letter[i]),
        mark.len() == 0 || mark =~= seq!['+'] || mark =~= seq!['#'],
    ensures
        stripped(stem + kind + mark) == stem + letter,
{
    let pred = other_than('=');
    Seq::filter_distributes_over_add(stem + kind, mark, pred);
    Seq::filter_distributes_over_add(stem, kind, pred);
    lemma_filter_keeps(stem, pred);
    lemma_filter_keeps(mark, pred);
    let core = stem + letter;
    let bare = core + mark;
    assert(without(stem + kind + mark, '=') == bare);
    assert(undecorated(core.last())) by {
        if letter.len() > 0 {
            assert(core.last() == letter[letter.len() - 1]);
        } else {
            assert(core =~= stem);
        }
    }
    if mark.len() > 0 {
        assert(bare.last() == mark[0]);
        assert(bare.drop_last() =~= core);
    } else {
        assert(bare =~= core);
    }
    assert(trim_marks(bare) == bare);
    assert(trim_check(bare) == core);
}

/// A move's text, if it is no castle's and no capture's en passant, is its
/// core with decorations that are taken off again.
proof fn lemma_stripped_text(after: Posicion, m: Movim)
    requires
        on_board(m.from_index as int),
        on_board(m.to_index as int),
        !written_as_castle(m),
        m.move_type != EN_PASSANT,
    ensures
        stripped(san_text(after, m)) == san_core(m),
{
    lemma_stem(m);
    lemma_drop_equals(m.move_type as int);
    lemma_strip(
        san_stem(m),
        san_kind(m.move_type as int),
        promo_letter(m.move_type as int),
        san_check(after),
    );
}

/// The parts of a piece's move as it is written: the piece's letter, an
/// `x` for a capture, and the destination.
proof fn lemma_tokens_piece(p: char, capture: bool, f: char, r: char)
    requires
        is_piece_initial(p),
        is_file(f),
        is_rank(r),
    ensures
        san_tokens(
            seq![p] + (if capture {
                seq!['x']
            } else {
                Seq::empty()
            }) + seq![f, r],
        ) == Some(with_rest(Some(p), None, None, (f, r, None))),
{
    if capture {
        let s = seq![p, 'x', f, r];
        assert(seq![p] + seq!['x'] + seq![f, r] =~= s);
        assert(san_rest(s, 1) == Some((f, r, None::<char>)));
    } else {
        let s = seq![p, f, r];
        assert(seq![p] + Seq::<char>::empty() + seq![f, r] =~= s);
        assert(san_rest(s, 1) == Some((f, r, None::<char>)));
        assert(san_rest(s, 2) is None);
        assert(san_rest(s, 3) is None);
    }
}

/// The parts of a pawn's move as it is written: for a capture the file of
/// origin and an `x`, the destination, and the letter of a promotion.
proof fn lemma_tokens_pawn(from: Option<char>, f: char, r: char, promo: Option<char>)
    requires
        from is Some ==> is_file(from->0),
        is_file(f),
        is_rank(r),
        promo is Some ==> promo->0 == 'Q' || promo->0 == 'R' || promo->0 == 'B' || promo->0
            == 'N',
    ensures
        san_tokens(
            (match from {
                Some(c) => seq![c, 'x'],
                None => Seq::empty(),
            }) + seq![f, r] + (match promo {
                Some(l) => seq![l],
                None => Seq::empty(),
            }),
        ) == Some(with_rest(None, from, None, (f, r, promo))),
{
    let head = match from {
        Some(c) => seq![c, 'x'],
        None => Seq::<char>::empty(),
    };
    let tail = match promo {
        Some(l) => seq![l],
        None => Seq::<char>::empty(),
    };
    let s = head + seq![f, r] + tail;
    match (from, promo) {
        (Some(c), Some(l)) => {
            assert(s =~= seq![c, 'x', f, r, l]);
            assert(san_rest(s, 1) == Some((f, r, promo)));
        },
        (Some(c), None) => {
            assert(s =~= seq![c, 'x', f, r]);
            assert(san_rest(s, 1) == Some((f, r, promo)));
        },
        (None, Some(l)) => {
            assert(s =~= seq![f, r, l]);
            assert(san_rest(s, 0) == Some((f, r, promo)));
            assert(san_rest(s, 1) is None);
            assert(san_rest(s, 2) is None);
        },
        (None, None) => {
            assert(s =~= seq![f, r]);
            assert(san_rest(s, 0) == Some((f, r, promo)));
            assert(san_rest(s, 1) is None);
            assert(san_rest(s, 2) is None);
        },
    }
}

/// The letter of a file.
pub open spec fn file_letter(sq: int) -> char {
    FILES@[file_of(sq)]
}

/// The digit of a rank.
pub open spec fn rank_digit(sq: int) -> char {
    DIGITS@[rank_of(sq) + 1]
}

/// The parts that a move's text is read as.
pub open spec fn san_parts(m: Movim) -> SanPartes {
    let pawn = m.piece_moving == W_PAWN || m.piece_moving == B_PAWN;
    SanPartes {
        pieza: if pawn {
            None
        } else {
            Some(san_piece(m.piece_moving as int)[0])
        },
        columna: if pawn && m.capture != 0 {
            Some(file_letter(m.from_index as int))
        } else {
            None
        },
        fila: None,
        destino_columna: file_letter(m.to_index as int),
        destino_fila: rank_digit(m.to_index as int),
        promo: if m.move_type >= PROMOTION_QUEEN {
            Some(promo_letter(m.move_type as int)[0])
        } else {
            None
        },
    }
}

/// The core of the text of a move that fits is read as the move's parts.
proof fn lemma_core_tokens(p: Posicion, m: Movim)
    requires
        p.wf(),
        move_fits(p, m),
        plain(m),
    ensures
        san_tokens(san_core(m)) == Some(san_parts(m)),
{
    let from = m.from_index as int;
    let to = m.to_index as int;
    let f = file_letter(to);
    let r = rank_digit(to);
    assert(-6 <= p.squares[from] <= 6);
    assert(file_text(to) =~= seq![f]);
    assert(digits_of(rank_of(to) + 1) =~= seq![r]);
    if m.piece_moving == W_PAWN || m.piece_moving == B_PAWN {
        let origin = if m.capture != 0 {
            Some(file_letter(from))
        } else {
            None
        };
        let promo = if m.move_type >= PROMOTION_QUEEN {
            Some(promo_letter(m.move_type as int)[0])
        } else {
            None
        };
        lemma_tokens_pawn(origin, f, r, promo);
        assert(san_piece(m.piece_moving as int) =~= Seq::<char>::empty());
        if m.capture != 0 {
            assert(file_text(from) =~= seq![file_letter(from)]);
            assert(san_capture(m) =~= seq![file_letter(from), 'x']);
        }
        assert(san_core(m) =~= (match origin {
            Some(c) => seq![c, 'x'],
            None => Seq::empty(),
        }) + seq![f, r] + (match promo {
            Some(l) => seq![l],
            None => Seq::empty(),
        }));
    } else {
        let letter = san_piece(m.piece_moving as int)[0];
        lemma_tokens_piece(letter, m.capture != 0, f, r);
        assert(san_piece(m.piece_moving as int) =~= seq![letter]);
        assert(promo_letter(m.move_type as int) =~= Seq::<char>::empty());
        assert(san_core(m) =~= seq![letter] + (if m.capture != 0 {
            seq!['x']
        } else {
            Seq::empty()
        }) + seq![f, r]);
    }
}

/// Where a pawn of the side to move may have come from on its way to `to`:
/// a step or two straight behind, a step diagonally behind, or the square
/// a1, which stands for an unused step.
pub open spec fn behind(p: Posicion, to: int, x: int) -> bool {
    let back = if p.to_move == 1 {
        to - x
    } else {
        x - to
    };
    x == 0 || back == 16 || back == 32 || back == 17 || back == 15
}

proof fn lemma_pawn_origins(p: Posicion, piece: int, to: int, n: int)
    requires
        abs_int(piece) == 6,
        0 <= n <= 8,
    ensures
        forall|i: int|
            0 <= i < origins_upto(p, piece, to, n).len() ==> behind(
                p,
                to,
                #[trigger] origins_upto(p, piece, to, n)[i],
            ),
    decreases n,
{
    if n > 0 {
        lemma_pawn_origins(p, piece, to, n - 1);
        let a = origins_upto(p, piece, to, n - 1);
        let d = deltas_of(piece)[n - 1] as int;
        let b = origin_for(p, piece, to, d);
        assert(d == 0 || d == 16 || d == 32 || d == 17 || d == 15);
        assert forall|i: int| 0 <= i < (a + b).len() implies behind(p, to, #[trigger] (a + b)[i]) by {
            if i < a.len() {
                assert((a + b)[i] == a[i]);
            } else {
                assert((a + b)[i] == b[i - a.len()]);
            }
        }
    }
}

/// Whether the text of move `m` can be told from that of a pawn on a1: `m`
/// is no capture by a pawn, or no other pawn of its side stands on a1.
pub open spec fn clear_of_corner(p: Posicion, m: Movim) -> bool {
    (m.piece_moving == W_PAWN || m.piece_moving == B_PAWN) && m.capture != 0 ==> p.at(0)
        != m.piece_moving || m.from_index == 0
}

/// The file of origin that a capturing pawn's text gives points at the
/// pawn's square.
proof fn lemma_chosen_pawn(p: Posicion, m: Movim)
    requires
        p.wf(),
        move_fits(p, m),
        plain(m),
        m.piece_moving == W_PAWN || m.piece_moving == B_PAWN,
        m.capture != 0,
        clear_of_corner(p, m),
    ensures
        chosen_origin(
            p,
            m.piece_moving as int,
            san_parts(m),
            origins(p, m.piece_moving as int, m.to_index as int),
        ) == m.from_index,
{
    let piece = m.piece_moving as int;
    let from = m.from_index as int;
    let to = m.to_index as int;
    let f = file_of(from);
    let r = rank_of(from);
    let from_list = origins(p, piece, to);
    let s = pawn_files(f);
    let pred = stands_on(p, piece, from_list, true);
    lemma_origin_in(p, m);
    lemma_pawn_origins(p, piece, to, 8);
    assert(file_letter(from) as int - 'a' as int == f);
    assert(s[r] == file_squares(f)[r]);
    assert(s[r] == from);
    assert forall|j: int| 0 <= j < r implies !pred(#[trigger] s[j]) by {
        assert(s[j] == file_squares(f)[j]);
        assert(s[j] == square_at(f, j));
        if from_list.contains(s[j]) {
            let i = choose|i: int| 0 <= i < from_list.len() && from_list[i] == s[j];
            assert(behind(p, to, from_list[i]));
        }
    }
    lemma_first_square_at(s, pred, r);
}

/// Two moves that fit a position and agree in piece, squares and kind are
/// one move.
proof fn lemma_same_move(p: Posicion, a: Movim, b: Movim)
    requires
        move_fits(p, a),
        move_fits(p, b),
        a.piece_moving == b.piece_moving,
        a.from_index == b.from_index,
        a.to_index == b.to_index,
        a.move_type == b.move_type,
    ensures
        a == b,
{
    assert(a.prev_pos@ == b.prev_pos@);
    assert(a.prev_pos =~= b.prev_pos);
}

/// No other legal move of the piece of `m` has the destination and the kind
/// of `m`.
pub open spec fn unambiguous(p: Posicion, m: Movim) -> bool {
    forall|i: int|
        0 <= i < legal_moves(p).len() && (#[trigger] legal_moves(p)[i]).piece_moving
            == m.piece_moving && legal_moves(p)[i].to_index == m.to_index && legal_moves(
            p,
        )[i].move_type == m.move_type ==> legal_moves(p)[i] == m
}

/// A legal move, written in standard algebraic notation and read back, is
/// the same move, if its text can be read at all and names no other move:
/// the move is no capture en passant, no other legal move of its piece has
/// its destination and kind, and its text cannot be taken for that of a
/// pawn on a1. The position `after` for which the text is written, and with
/// it the mark for check or mate, is of no account.
pub proof fn lemma_san_read_back(p: Posicion, after: Posicion, m: Movim)
    requires
        p.wf(),
        legal_moves(p).contains(m),
        m.move_type != EN_PASSANT,
        unambiguous(p, m),
        clear_of_corner(p, m),
    ensures
        san_move(p, san_text(after, m)) == m,
{
    lemma_legal_fits(p, m);
    if written_as_castle(m) {
        lemma_castle_read_back(p, after, m);
    } else {
        let moves = legal_moves(p);
        let piece = m.piece_moving as int;
        let from = m.from_index as int;
        let to = m.to_index as int;
        assert(-6 <= p.squares[from] <= 6);
        lemma_stripped_text(after, m);
        lemma_core_tokens(p, m);
        lemma_origin_in(p, m);
        let t = san_parts(m);
        let from_list = origins(p, piece, to);
        let written = t.columna is Some;
        let chosen = if written {
            chosen_origin(p, piece, t, from_list)
        } else {
            -1
        };
        let promotion = san_promotion(t.promo);
        assert(square_of(t.destino_columna, t.destino_fila) == to);
        assert(san_piece_code(t.pieza, p.to_move) == piece);
        if written {
            lemma_chosen_pawn(p, m);
        }
        assert(promotion == (if m.move_type >= PROMOTION_QUEEN {
            m.move_type as int
        } else {
            0
        }));
        assert forall|k: int, j: int|
            0 <= k < from_list.len() && 0 <= j < moves.len() && accepted(
                #[trigger] moves[j],
                piece,
                #[trigger] from_list[k],
                to,
                written,
                chosen,
                promotion,
            ) implies moves[j] == m by {
            let o = moves[j];
            assert(moves.contains(o));
            lemma_legal_fits(p, o);
            if written {
                assert(o.move_type == m.move_type);
                lemma_same_move(p, o, m);
            }
        }
        let k = choose|k: int| 0 <= k < from_list.len() && from_list[k] == from;
        lemma_resolve_finds(moves, from_list, 0, piece, to, written, chosen, promotion, m);
    }
}

} // verus!
