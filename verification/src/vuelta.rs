//! The text of a position, read back, is the position.

use vstd::prelude::*;
use crate::defs::{file_of, on_board, rank_of, square_at};
use crate::fen::{
    castle_field_ok, castle_rights, castle_text, char_codes, counter_ok, fen_text, fen_valida,
    letter_piece, passing_field_ok, passing_square, passing_text, piece_letter, placement_ok,
    placement_squares, posicion_fen, ranks_text, row_char_ok, row_codes, row_ok, row_text,
    run_text, side_castle_text, square_name, FILES,
};
use crate::tablero::Posicion;
use crate::texto::{
    all_digits, decimal, digit_value, digits_of, digits_value, fields, fields_from, is_digit,
    is_space, next_sep, next_space, next_word, number_body, number_value, parse_i16, parts,
    parts_from, DIGITS,
};

verus! {

/// No character of the text is white space.
pub open spec fn no_space(s: Seq<char>) -> bool {
    forall|i: int| 0 <= i < s.len() ==> !is_space(#[trigger] s[i])
}

/// No character of the text is `c`.
pub open spec fn free_of(s: Seq<char>, c: char) -> bool {
    forall|i: int| 0 <= i < s.len() ==> #[trigger] s[i] != c
}

proof fn lemma_word_end(a: Seq<char>, rest: Seq<char>, i: int)
    requires
        no_space(a),
        0 <= i <= a.len(),
        rest.len() == 0 || is_space(rest[0]),
    ensures
        next_space(a + rest, i) == a.len(),
    decreases a.len() - i,
{
    let s = a + rest;
    if i < a.len() {
        assert(s[i] == a[i]);
        lemma_word_end(a, rest, i + 1);
    } else if rest.len() > 0 {
        assert(s[i] == rest[0]);
    }
}

proof fn lemma_fields_shift(x: Seq<char>, y: Seq<char>, i: int)
    requires
        0 <= i <= y.len(),
    ensures
        next_space(x + y, x.len() + i) == x.len() + next_space(y, i),
        next_word(x + y, x.len() + i) == x.len() + next_word(y, i),
        i <= next_space(y, i) <= y.len(),
        i <= next_word(y, i) <= y.len(),
    decreases y.len() - i,
{
    let s = x + y;
    if i < y.len() {
        assert(s[x.len() + i] == y[i]);
        lemma_fields_shift(x, y, i + 1);
    }
}

proof fn lemma_fields_from_shift(x: Seq<char>, y: Seq<char>, i: int)
    requires
        0 <= i <= y.len(),
    ensures
        fields_from(x + y, x.len() + i) == fields_from(y, i),
    decreases y.len() - i,
{
    let s = x + y;
    lemma_fields_shift(x, y, i);
    let a = next_word(y, i);
    if a < y.len() {
        lemma_fields_shift(x, y, a);
        let b = next_space(y, a);
        if a < b {
            lemma_fields_from_shift(x, y, b);
            assert(s.subrange(x.len() + a, x.len() + b) =~= y.subrange(a, b));
        }
    }
}

/// A word before a blank is the first field of a text.
pub proof fn lemma_fields_cons(a: Seq<char>, rest: Seq<char>)
    requires
        a.len() > 0,
        no_space(a),
    ensures
        fields(a + seq![' '] + rest) == seq![a] + fields(rest),
{
    let tail = seq![' '] + rest;
    let s = a + tail;
    assert(a + seq![' '] + rest =~= s);
    assert(is_space(tail[0]));
    lemma_word_end(a, tail, 0);
    assert(s[0] == a[0]);
    assert(next_word(s, 0) == 0);
    assert(s.subrange(0, a.len() as int) =~= a);
    lemma_fields_from_shift(a, tail, 0);
    lemma_fields_from_shift(seq![' '], rest, 0);
    lemma_fields_shift(seq![' '], rest, 0);
    assert(next_word(tail, 0) == next_word(tail, 1));
    assert(fields_from(tail, 0) == fields_from(tail, 1));
}

/// A word alone is the only field of its text.
pub proof fn lemma_fields_one(a: Seq<char>)
    requires
        a.len() > 0,
        no_space(a),
    ensures
        fields(a) == seq![a],
{
    let nada = Seq::<char>::empty();
    assert(a + nada =~= a);
    lemma_word_end(a, nada, 0);
    assert(next_word(a, 0) == 0);
    assert(a.subrange(0, a.len() as int) =~= a);
    assert(fields_from(a, a.len() as int) =~= Seq::<Seq<char>>::empty());
    assert(fields(a) =~= seq![a]);
}

proof fn lemma_part_end(a: Seq<char>, rest: Seq<char>, sep: char, i: int)
    requires
        free_of(a, sep),
        0 <= i <= a.len(),
        rest.len() == 0 || rest[0] == sep,
    ensures
        next_sep(a + rest, sep, i) == a.len(),
    decreases a.len() - i,
{
    let s = a + rest;
    if i < a.len() {
        assert(s[i] == a[i]);
        lemma_part_end(a, rest, sep, i + 1);
    } else if rest.len() > 0 {
        assert(s[i] == rest[0]);
    }
}

proof fn lemma_parts_shift(x: Seq<char>, y: Seq<char>, sep: char, i: int)
    requires
        0 <= i <= y.len(),
    ensures
        next_sep(x + y, sep, x.len() + i) == x.len() + next_sep(y, sep, i),
        i <= next_sep(y, sep, i) <= y.len(),
        parts_from(x + y, sep, x.len() + i) == parts_from(y, sep, i),
    decreases y.len() - i,
{
    let s = x + y;
    lemma_next_sep_shift(x, y, sep, i);
    let b = next_sep(y, sep, i);
    if b >= y.len() {
        assert(s.subrange(x.len() + i, s.len() as int) =~= y.subrange(i, y.len() as int));
    } else {
        lemma_parts_shift(x, y, sep, b + 1);
        assert(s.subrange(x.len() + i, x.len() + b) =~= y.subrange(i, b));
    }
}

proof fn lemma_next_sep_shift(x: Seq<char>, y: Seq<char>, sep: char, i: int)
    requires
        0 <= i <= y.len(),
    ensures
        next_sep(x + y, sep, x.len() + i) == x.len() + next_sep(y, sep, i),
        i <= next_sep(y, sep, i) <= y.len(),
    decreases y.len() - i,
{
    if i < y.len() {
        assert((x + y)[x.len() + i] == y[i]);
        lemma_next_sep_shift(x, y, sep, i + 1);
    }
}

/// What stands before the first separator is the first part of a text.
pub proof fn lemma_parts_cons(a: Seq<char>, rest: Seq<char>, sep: char)
    requires
        free_of(a, sep),
    ensures
        parts(a + seq![sep] + rest, sep) == seq![a] + parts(rest, sep),
{
    let tail = seq![sep] + rest;
    let s = a + tail;
    assert(a + seq![sep] + rest =~= s);
    lemma_part_end(a, tail, sep, 0);
    assert(s.subrange(0, a.len() as int) =~= a);
    lemma_parts_shift(a, tail, sep, 1);
    lemma_parts_shift(seq![sep], rest, sep, 0);
}

/// A text without the separator is its only part.
pub proof fn lemma_parts_one(a: Seq<char>, sep: char)
    requires
        free_of(a, sep),
    ensures
        parts(a, sep) == seq![a],
{
    let nada = Seq::<char>::empty();
    assert(a + nada =~= a);
    lemma_part_end(a, nada, sep, 0);
    assert(a.subrange(0, a.len() as int) =~= a);
}

/// The squares of two texts of a rank, one after the other.
proof fn lemma_row_codes_add(a: Seq<char>, b: Seq<char>)
    ensures
        row_codes(a + b) == row_codes(a) + row_codes(b),
    decreases b.len(),
{
    if b.len() == 0 {
        assert(a + b =~= a);
        assert(row_codes(a) + row_codes(b) =~= row_codes(a));
    } else {
        lemma_row_codes_add(a, b.drop_last());
        assert((a + b).drop_last() =~= a + b.drop_last());
        assert((a + b).last() == b.last());
        assert(row_codes(a + b) =~= row_codes(a) + row_codes(b));
    }
}

proof fn lemma_row_codes_one(c: char)
    ensures
        row_codes(seq![c]) == char_codes(c),
{
    let nada = Seq::<char>::empty();
    assert(seq![c].drop_last() =~= nada);
    assert(seq![c].last() == c);
    assert(row_codes(nada) =~= Seq::<i16>::empty());
    assert(row_codes(seq![c]) == row_codes(nada) + char_codes(c));
    assert(row_codes(seq![c]) =~= char_codes(c));
}

/// Every place of the text holds a piece letter or a digit after no digit.
pub open spec fn well_spaced(t: Seq<char>) -> bool {
    forall|i: int| 0 <= i < t.len() ==> #[trigger] row_char_ok(t, i)
}

/// So many empty squares.
pub open spec fn zeros(n: int) -> Seq<i16> {
    Seq::new(n as nat, |i: int| 0i16)
}

/// The text of a rank from a file on reads back as the squares it was
/// written from.
#[verifier::rlimit(30)]
proof fn lemma_row(sq: Seq<i16>, rank: int, file: int, e: int)
    requires
        sq.len() == 128,
        forall|s: int| 0 <= s < 128 ==> -6 <= #[trigger] sq[s] <= 6,
        0 <= rank < 8,
        0 <= e <= file <= 8,
        forall|k: int| file - e <= k < file ==> sq[#[trigger] square_at(k, rank)] == 0,
    ensures
        row_codes(row_text(sq, rank, file, e)) == zeros(e) + sq.subrange(
            16 * rank + file,
            16 * rank + 8,
        ),
        well_spaced(row_text(sq, rank, file, e)),
        free_of(row_text(sq, rank, file, e), '/'),
        no_space(row_text(sq, rank, file, e)),
        file < 8 || e > 0 ==> row_text(sq, rank, file, e).len() > 0,
    decreases 8 - file,
{
    let t = row_text(sq, rank, file, e);
    let run = run_text(e);
    assert(run.len() > 0 ==> is_digit(run[0]) && digit_value(run[0]) == e);
    lemma_run(e);
    if file >= 8 {
        assert(sq.subrange(16 * rank + file, 16 * rank + 8) =~= Seq::<i16>::empty());
        assert(zeros(e) + Seq::<i16>::empty() =~= zeros(e));
    } else if sq[16 * rank + file] == 0 {
        assert(sq[square_at(file, rank)] == 0);
        lemma_row(sq, rank, file + 1, e + 1);

        assert(zeros(e + 1) + sq.subrange(16 * rank + file + 1, 16 * rank + 8) =~= zeros(e)
            + sq.subrange(16 * rank + file, 16 * rank + 8));
    } else {
        let piece = sq[16 * rank + file];
        let letter = piece_letter(piece as int);
        let rest = row_text(sq, rank, file + 1, 0);
        lemma_row(sq, rank, file + 1, 0);
        assert(letter_piece(letter) == piece);
        assert(!is_digit(letter));
        assert(!is_space(letter));
        lemma_row_codes_one(letter);
        lemma_row_codes_add(run, seq![letter]);
        lemma_row_codes_add(run + seq![letter], rest);
        assert(t == run + seq![letter] + rest);
        assert(zeros(0) =~= Seq::<i16>::empty());
        assert(row_codes(t) =~= zeros(e) + sq.subrange(16 * rank + file, 16 * rank + 8));
        let head = run + seq![letter];
        assert forall|i: int| 0 <= i < t.len() implies #[trigger] row_char_ok(t, i) && t[i] != '/'
            && !is_space(t[i]) by {
            if i < head.len() {
                assert(t[i] == head[i]);
                if i > 0 {
                    assert(t[i - 1] == head[i - 1]);
                }
            } else {
                assert(t[i] == rest[i - head.len()]);
                assert(row_char_ok(rest, i - head.len()));
                if i == head.len() {
                    assert(t[i - 1] == letter);
                } else {
                    assert(t[i - 1] == rest[i - head.len() - 1]);
                }
            }
        }
    }
}

proof fn lemma_run(e: int)
    requires
        0 <= e <= 8,
    ensures
        row_codes(run_text(e)) == zeros(e),
        well_spaced(run_text(e)),
        free_of(run_text(e), '/'),
        no_space(run_text(e)),
{
    if e > 0 {
        let c = DIGITS@[e];
        lemma_row_codes_one(c);
        assert(char_codes(c) =~= zeros(e));
    } else {
        assert(row_codes(run_text(e)) =~= zeros(e));
    }
}

/// What the board needs for its text to be read back: 128 slots that hold
/// piece codes.
pub open spec fn squares_ok(sq: Seq<i16>) -> bool {
    sq.len() == 128 && forall|s: int| 0 <= s < 128 ==> -6 <= #[trigger] sq[s] <= 6
}

/// The texts of the ranks from `rank` down to the first.
pub open spec fn rows_of(sq: Seq<i16>, rank: int) -> Seq<Seq<char>> {
    Seq::new((rank + 1) as nat, |k: int| row_text(sq, rank - k, 0, 0))
}

/// The parts of the placement text are the texts of the ranks.
proof fn lemma_ranks(sq: Seq<i16>, rank: int)
    requires
        squares_ok(sq),
        0 <= rank < 8,
    ensures
        parts(ranks_text(sq, rank), '/') == rows_of(sq, rank),
        no_space(ranks_text(sq, rank)),
        ranks_text(sq, rank).len() > 0,
    decreases rank,
{
    lemma_row(sq, rank, 0, 0);
    let row = row_text(sq, rank, 0, 0);
    if rank == 0 {
        lemma_parts_one(row, '/');
        assert(rows_of(sq, 0) =~= seq![row]);
    } else {
        lemma_ranks(sq, rank - 1);
        let rest = ranks_text(sq, rank - 1);
        lemma_parts_cons(row, rest, '/');
        assert(seq![row] + rows_of(sq, rank - 1) =~= rows_of(sq, rank));
        let t = ranks_text(sq, rank);
        assert forall|i: int| 0 <= i < t.len() implies !is_space(#[trigger] t[i]) by {
            if i < row.len() {
                assert(t[i] == row[i]);
            } else if i == row.len() {
                assert(t[i] == '/');
            } else {
                assert(t[i] == rest[i - row.len() - 1]);
            }
        }
    }
}

/// The board of the placement text is the board it was written from.
proof fn lemma_placement(sq: Seq<i16>)
    requires
        squares_ok(sq),
        forall|s: int| 0 <= s < 128 && !on_board(s) ==> #[trigger] sq[s] == 0,
    ensures
        placement_ok(ranks_text(sq, 7)),
        placement_squares(parts(ranks_text(sq, 7), '/')) == sq,
        no_space(ranks_text(sq, 7)),
        ranks_text(sq, 7).len() > 0,
{
    lemma_ranks(sq, 7);
    let rows = parts(ranks_text(sq, 7), '/');
    assert forall|r: int| 0 <= r < 8 implies row_ok(#[trigger] rows[r]) && row_codes(rows[r])
        == sq.subrange(16 * (7 - r), 16 * (7 - r) + 8) by {
        lemma_row(sq, 7 - r, 0, 0);
        assert(zeros(0) + sq.subrange(16 * (7 - r), 16 * (7 - r) + 8) =~= sq.subrange(
            16 * (7 - r),
            16 * (7 - r) + 8,
        ));
    }
    assert forall|s: int| 0 <= s < 128 implies placement_squares(rows)[s] == sq[s] by {
        if on_board(s) {
            let r = 7 - rank_of(s);
            assert(row_ok(rows[r]));
            assert(sq.subrange(16 * (7 - r), 16 * (7 - r) + 8)[file_of(s)] == sq[s]);
        }
    }
    assert(placement_squares(rows) =~= sq);
}

/// The castling field reads back as the rights it was written from.
proof fn lemma_castle(white: int, black: int)
    requires
        0 <= white <= 3,
        0 <= black <= 3,
    ensures
        castle_field_ok(castle_text(white, black)),
        castle_rights(castle_text(white, black), 'K', 'Q') == white,
        castle_rights(castle_text(white, black), 'k', 'q') == black,
        no_space(castle_text(white, black)),
        castle_text(white, black).len() > 0,
{
    let a = side_castle_text(white, 'K', 'Q');
    let b = side_castle_text(black, 'k', 'q');
    let t = castle_text(white, black);
    if white == 0 && black == 0 {
        assert(t[0] == '-');
    } else {
        assert(t == a + b);
        assert forall|i: int| 0 <= i < t.len() implies (#[trigger] t[i] == 'K' || t[i] == 'Q'
            || t[i] == 'k' || t[i] == 'q') by {
            if i < a.len() {
                assert(t[i] == a[i]);
            } else {
                assert(t[i] == b[i - a.len()]);
            }
        }
        assert(!(t =~= seq!['-'])) by {
            assert(t[0] != '-');
        }
        lemma_contains(a, b, 'K');
        lemma_contains(a, b, 'Q');
        lemma_contains(a, b, 'k');
        lemma_contains(a, b, 'q');
        lemma_side(white, 'K', 'Q');
        lemma_side(black, 'k', 'q');
    }
}

proof fn lemma_contains(a: Seq<char>, b: Seq<char>, c: char)
    ensures
        (a + b).contains(c) <==> a.contains(c) || b.contains(c),
{
    if a.contains(c) {
        let i = choose|i: int| 0 <= i < a.len() && a[i] == c;
        assert((a + b)[i] == c);
    }
    if b.contains(c) {
        let i = choose|i: int| 0 <= i < b.len() && b[i] == c;
        assert((a + b)[a.len() + i] == c);
    }
    if (a + b).contains(c) {
        let i = choose|i: int| 0 <= i < (a + b).len() && (a + b)[i] == c;
        if i < a.len() {
            assert(a[i] == c);
        } else {
            assert(b[i - a.len()] == c);
        }
    }
}

proof fn lemma_side(rights: int, short: char, long: char)
    requires
        0 <= rights <= 3,
        short != long,
    ensures
        side_castle_text(rights, short, long).contains(short) <==> rights == 1 || rights == 3,
        side_castle_text(rights, short, long).contains(long) <==> rights == 2 || rights == 3,
        forall|c: char|
            c != short && c != long ==> !side_castle_text(rights, short, long).contains(c),
{
    let t = side_castle_text(rights, short, long);
    if rights == 1 {
        assert(t[0] == short);
    } else if rights == 2 {
        assert(t[0] == long);
    } else if rights == 3 {
        assert(t[0] == short);
        assert(t[1] == long);
    }
}

/// The en-passant field reads back as the square it was written from.
proof fn lemma_passing(ep: int)
    requires
        ep == -1 || (on_board(ep) && (rank_of(ep) == 2 || rank_of(ep) == 5)),
    ensures
        passing_field_ok(passing_text(ep)),
        passing_square(passing_text(ep)) == ep,
        no_space(passing_text(ep)),
        passing_text(ep).len() > 0,
        ep != -1 ==> passing_text(ep).len() == 2 && passing_text(ep)[1] == (if rank_of(ep) == 2 {
            '3'
        } else {
            '6'
        }),
{
    let t = passing_text(ep);
    if ep == -1 {
        assert(t[0] == '-');
    } else {
        assert(t == square_name(ep));
        assert(t[0] == FILES@[file_of(ep)]);
        assert(t[1] == DIGITS@[rank_of(ep) + 1]);
        assert(!(t =~= seq!['-'])) by {
            assert(t.len() == 2);
        }
    }
}

/// The digits of a number read back as the number.
proof fn lemma_digits(n: int)
    requires
        0 <= n,
    ensures
        digits_of(n).len() > 0,
        all_digits(digits_of(n)),
        digits_value(digits_of(n)) == n,
    decreases n,
{
    let t = digits_of(n);
    if n < 10 {
        assert(t.drop_last() =~= Seq::<char>::empty());
        assert(t.last() == DIGITS@[n]);
        assert(digits_value(t.drop_last()) == 0);
    } else {
        lemma_digits(n / 10);
        assert(t.drop_last() =~= digits_of(n / 10));
        assert(t.last() == DIGITS@[n % 10]);
        assert forall|i: int| 0 <= i < t.len() implies is_digit(#[trigger] t[i]) by {
            if i < t.len() - 1 {
                assert(t[i] == digits_of(n / 10)[i]);
            }
        }
    }
}

/// The text of a counter reads back as the counter.
pub proof fn lemma_decimal(n: int)
    requires
        0 <= n <= i16::MAX,
    ensures
        parse_i16(decimal(n)) == Ok::<i16, crate::texto::ErrorNumero>(n as i16),
        counter_ok(decimal(n)),
        number_value(decimal(n)) == n,
        no_space(decimal(n)),
        decimal(n).len() > 0,
{
    lemma_digits(n);
    let t = decimal(n);
    assert(is_digit(t[0]));
    assert(number_body(t) == t);
    assert forall|i: int| 0 <= i < t.len() implies !is_space(#[trigger] t[i]) by {
        assert(is_digit(t[i]));
    }
}

/// The fields of a position's text.
pub open spec fn fen_fields(p: Posicion) -> Seq<Seq<char>> {
    seq![
        ranks_text(p.squares, 7),
        seq![if p.to_move == 1 { 'w' } else { 'b' }],
        castle_text(p.white_castle, p.black_castle),
        passing_text(p.en_passant),
        decimal(p.moves_fifty),
        decimal(p.moves_full),
    ]
}

/// Six words with blanks between them are the six fields of their text.
proof fn lemma_six_fields(a: Seq<char>, b: Seq<char>, c: Seq<char>, d: Seq<char>, e: Seq<char>, f: Seq<char>)
    requires
        a.len() > 0 && no_space(a),
        b.len() > 0 && no_space(b),
        c.len() > 0 && no_space(c),
        d.len() > 0 && no_space(d),
        e.len() > 0 && no_space(e),
        f.len() > 0 && no_space(f),
    ensures
        fields(
            a + seq![' '] + (b + seq![' '] + (c + seq![' '] + (d + seq![' '] + (e + seq![' '] + f)))),
        ) == seq![a, b, c, d, e, f],
{
    let blank = seq![' '];
    let t5 = f;
    let t4 = e + blank + t5;
    let t3 = d + blank + t4;
    let t2 = c + blank + t3;
    let t1 = b + blank + t2;
    lemma_fields_one(t5);
    lemma_fields_cons(e, t5);
    lemma_fields_cons(d, t4);
    lemma_fields_cons(c, t3);
    lemma_fields_cons(b, t2);
    lemma_fields_cons(a, t1);
    assert(seq![a] + (seq![b] + (seq![c] + (seq![d] + (seq![e] + seq![f])))) =~= seq![
        a,
        b,
        c,
        d,
        e,
        f,
    ]);
}

/// Six words put together as the text of a position puts its fields
/// together.
pub open spec fn joined(
    a: Seq<char>,
    s: char,
    c: Seq<char>,
    d: Seq<char>,
    e: Seq<char>,
    f: Seq<char>,
) -> Seq<char> {
    (a + seq![' ', s, ' '] + c + seq![' '] + d) + seq![' '] + e + seq![' '] + f
}

proof fn lemma_joined(a: Seq<char>, s: char, c: Seq<char>, d: Seq<char>, e: Seq<char>, f: Seq<char>)
    requires
        a.len() > 0 && no_space(a),
        !is_space(s),
        c.len() > 0 && no_space(c),
        d.len() > 0 && no_space(d),
        e.len() > 0 && no_space(e),
        f.len() > 0 && no_space(f),
    ensures
        fields(joined(a, s, c, d, e, f)) == seq![a, seq![s], c, d, e, f],
{
    let b = seq![s];
    assert(!is_space(b[0]));
    lemma_six_fields(a, b, c, d, e, f);
    let blank = seq![' '];
    assert(joined(a, s, c, d, e, f) =~= a + blank + (b + blank + (c + blank + (d + blank + (e
        + blank + f)))));
}

/// The fields of the text of a position.
proof fn lemma_fen_fields(p: Posicion)
    requires
        p.wf(),
    ensures
        fields(fen_text(p)) == fen_fields(p),
{
    lemma_placement(p.squares);
    lemma_castle(p.white_castle, p.black_castle);
    lemma_passing(p.en_passant);
    lemma_decimal(p.moves_fifty);
    lemma_decimal(p.moves_full);
    let side = if p.to_move == 1 {
        'w'
    } else {
        'b'
    };
    lemma_joined(
        ranks_text(p.squares, 7),
        side,
        castle_text(p.white_castle, p.black_castle),
        passing_text(p.en_passant),
        decimal(p.moves_fifty),
        decimal(p.moves_full),
    );
    assert(fen_text(p) == joined(
        ranks_text(p.squares, 7),
        side,
        castle_text(p.white_castle, p.black_castle),
        passing_text(p.en_passant),
        decimal(p.moves_fifty),
        decimal(p.moves_full),
    ));
}

/// The text of a position that is fit for play is a FEN in order.
proof fn lemma_fen_text_valid(p: Posicion)
    requires
        p.wf(),
    ensures
        fen_valida(fen_text(p)),
{
    lemma_fen_fields(p);
    let f = fields(fen_text(p));
    assert(f.len() == 6);
    lemma_placement(p.squares);
    lemma_castle(p.white_castle, p.black_castle);
    lemma_passing(p.en_passant);
    lemma_decimal(p.moves_fifty);
    lemma_decimal(p.moves_full);
    assert(counter_ok(f[5]));
    assert(counter_ok(f[4]));
    assert(passing_field_ok(f[3]));
    assert(castle_field_ok(f[2]));
    assert(placement_ok(f[0]));
    assert(f[1][0] == (if p.to_move == 1 { 'w' } else { 'b' }));
    assert(f[1] =~= seq!['w'] || f[1] =~= seq!['b']);
    assert(f[1] =~= seq!['w'] ==> p.to_move == 1);
    assert(f[1] =~= seq!['b'] ==> p.to_move == -1);
}

/// The text of a position that is fit for play is a FEN in order, and read
/// back it is the position, in every field; so such a text, read and
/// written again, is the same text.
pub proof fn lemma_fen_round_trip(p: Posicion)
    requires
        p.wf(),
    ensures
        fen_valida(fen_text(p)),
        posicion_fen(fen_text(p)) == p,
        fen_text(posicion_fen(fen_text(p))) == fen_text(p),
{
    lemma_fen_text_valid(p);
    lemma_fen_fields(p);
    let f = fields(fen_text(p));
    lemma_placement(p.squares);
    lemma_castle(p.white_castle, p.black_castle);
    lemma_passing(p.en_passant);
    lemma_decimal(p.moves_fifty);
    lemma_decimal(p.moves_full);
    let q = posicion_fen(fen_text(p));
    assert(f[1][0] == (if p.to_move == 1 { 'w' } else { 'b' }));
    assert(f[1] =~= seq!['w'] <==> p.to_move == 1);
    assert(q.squares =~= p.squares);
    assert(q.to_move == p.to_move);
    assert(q.en_passant == p.en_passant);
    assert(q.white_castle == p.white_castle);
    assert(q.black_castle == p.black_castle);
    assert(q.moves_fifty == p.moves_fifty);
    assert(q.moves_full == p.moves_full);
}

} // verus!
