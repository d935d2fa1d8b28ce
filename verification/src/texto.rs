//! Text as sequences of characters: fields, separators and decimal numbers.

use vstd::prelude::*;

verus! {

/// `String::push` of the standard library: the string afterwards is the
/// string before with the character at its end, as its documentation says.
pub assume_specification[ String::push ](s: &mut String, ch: char)
    ensures
        final(s)@ == old(s)@.push(ch),
;

/// The characters of a string.
pub fn a_caracteres(s: &str) -> (v: Vec<char>)
    ensures
        v@ == s@,
{
    let n = s.unicode_len();
    let mut v: Vec<char> = Vec::new();
    let mut i: usize = 0;
    while i < n
        invariant
            0 <= i <= n,
            n == s@.len(),
            v@ == s@.take(i as int),
        decreases n - i,
    {
        v.push(s.get_char(i));
        assert(s@.take(i + 1) =~= s@.take(i as int).push(s@[i as int]));
        i += 1;
    }
    assert(s@.take(n as int) =~= s@);
    v
}

/// The string made of the characters `v[desde..hasta]`.
pub fn a_cadena(v: &Vec<char>, desde: usize, hasta: usize) -> (s: String)
    requires
        desde <= hasta <= v.len(),
    ensures
        s@ == v@.subrange(desde as int, hasta as int),
{
    let mut s = String::new();
    let mut i: usize = desde;
    while i < hasta
        invariant
            desde <= i <= hasta <= v.len(),
            s@ == v@.subrange(desde as int, i as int),
        decreases hasta - i,
    {
        s.push(v[i]);
        assert(v@.subrange(desde as int, i + 1) =~= v@.subrange(desde as int, i as int).push(
            v@[i as int],
        ));
        i += 1;
    }
    s
}

/// Appends a text.
pub fn pon_texto(s: &mut String, t: &str)
    ensures
        final(s)@ == old(s)@ + t@,
{
    let v = a_caracteres(t);
    let mut i: usize = 0;
    while i < v.len()
        invariant
            0 <= i <= v.len(),
            s@ == old(s)@ + v@.take(i as int),
        decreases v.len() - i,
    {
        s.push(v[i]);
        assert(old(s)@ + v@.take(i + 1) =~= (old(s)@ + v@.take(i as int)).push(v@[i as int]));
        i += 1;
    }
    assert(v@.take(v.len() as int) =~= v@);
}

/// White space, as Unicode defines it.
pub open spec fn is_space(c: char) -> bool {
    let u = c as u32;
    (0x09 <= u <= 0x0D) || u == 0x20 || u == 0x85 || u == 0xA0 || u == 0x1680 || (0x2000 <= u
        <= 0x200A) || u == 0x2028 || u == 0x2029 || u == 0x202F || u == 0x205F || u == 0x3000
}

/// Whether a character is white space.
pub fn es_espacio(c: char) -> (b: bool)
    ensures
        b == is_space(c),
{
    let u = c as u32;
    (0x09 <= u && u <= 0x0D) || u == 0x20 || u == 0x85 || u == 0xA0 || u == 0x1680 || (0x2000 <= u
        && u <= 0x200A) || u == 0x2028 || u == 0x2029 || u == 0x202F || u == 0x205F || u
        == 0x3000
}

/// The first place at or after `i` that holds white space, or the length.
pub open spec fn next_space(s: Seq<char>, i: int) -> int
    decreases s.len() - i,
{
    if i < 0 || i >= s.len() {
        s.len() as int
    } else if is_space(s[i]) {
        i
    } else {
        next_space(s, i + 1)
    }
}

/// The first place at or after `i` that holds no white space, or the length.
pub open spec fn next_word(s: Seq<char>, i: int) -> int
    decreases s.len() - i,
{
    if i < 0 || i >= s.len() {
        s.len() as int
    } else if !is_space(s[i]) {
        i
    } else {
        next_word(s, i + 1)
    }
}

/// The fields of `s` from place `i` on: the longest runs without white
/// space.
pub open spec fn fields_from(s: Seq<char>, i: int) -> Seq<Seq<char>>
    decreases s.len() - i,
{
    let a = next_word(s, i);
    if i < 0 || a >= s.len() {
        Seq::empty()
    } else {
        let b = next_space(s, a);
        if i <= a < b <= s.len() {
            seq![s.subrange(a, b)] + fields_from(s, b)
        } else {
            Seq::empty()
        }
    }
}

/// The fields of a text: what white space separates.
pub open spec fn fields(s: Seq<char>) -> Seq<Seq<char>> {
    fields_from(s, 0)
}

proof fn lemma_next_bounds(s: Seq<char>, i: int)
    requires
        0 <= i <= s.len(),
    ensures
        i <= next_space(s, i) <= s.len(),
        i <= next_word(s, i) <= s.len(),
        next_word(s, i) < s.len() ==> !is_space(s[next_word(s, i)]) && next_space(
            s,
            next_word(s, i),
        ) > next_word(s, i),
    decreases s.len() - i,
{
    if i < s.len() {
        lemma_next_bounds(s, i + 1);
    }
}

/// Splits a text into its fields.
pub fn campos(s: &Vec<char>) -> (v: Vec<Vec<char>>)
    ensures
        v@.len() == fields(s@).len(),
        forall|k: int| 0 <= k < v@.len() ==> (#[trigger] v@[k])@ == fields(s@)[k],
{
    let mut v: Vec<Vec<char>> = Vec::new();
    let mut i: usize = 0;
    let n = s.len();
    let ghost hechos: Seq<Seq<char>> = Seq::empty();
    while i < n
        invariant
            0 <= i <= n,
            n == s@.len(),
            v@.len() == hechos.len(),
            forall|k: int| 0 <= k < v@.len() ==> (#[trigger] v@[k])@ == hechos[k],
            fields(s@) == hechos + fields_from(s@, i as int),
        decreases n - i,
    {
        if es_espacio(s[i]) {
            i += 1;
        } else {
            let mut campo: Vec<char> = Vec::new();
            let ghost a = i as int;
            proof {
                lemma_next_bounds(s@, a);
            }
            while i < n && !es_espacio(s[i])
                invariant
                    0 <= a <= i <= n,
                    n == s@.len(),
                    campo@ == s@.subrange(a, i as int),
                    next_space(s@, a) == next_space(s@, i as int),
                decreases n - i,
            {
                campo.push(s[i]);
                assert(s@.subrange(a, i + 1) =~= s@.subrange(a, i as int).push(s@[i as int]));
                i += 1;
            }
            proof {
                assert(next_space(s@, a) == i);
                assert(next_word(s@, a) == a);
                hechos = hechos.push(campo@);
                assert(fields(s@) =~= hechos + fields_from(s@, i as int));
            }
            v.push(campo);
        }
    }
    assert(fields_from(s@, n as int) =~= Seq::<Seq<char>>::empty());
    v
}

/// The first place of `sep` in `s` at or after `i`, or the length.
pub open spec fn next_sep(s: Seq<char>, sep: char, i: int) -> int
    decreases s.len() - i,
{
    if i < 0 || i >= s.len() {
        s.len() as int
    } else if s[i] == sep {
        i
    } else {
        next_sep(s, sep, i + 1)
    }
}

/// The parts of `s` from place `i` on that `sep` separates; a text without
/// `sep` is one part.
pub open spec fn parts_from(s: Seq<char>, sep: char, i: int) -> Seq<Seq<char>>
    decreases s.len() - i,
{
    if i < 0 || i > s.len() {
        Seq::empty()
    } else {
        let b = next_sep(s, sep, i);
        if b >= s.len() {
            seq![s.subrange(i, s.len() as int)]
        } else if i <= b {
            seq![s.subrange(i, b)] + parts_from(s, sep, b + 1)
        } else {
            Seq::empty()
        }
    }
}

/// The parts of a text that `sep` separates.
pub open spec fn parts(s: Seq<char>, sep: char) -> Seq<Seq<char>> {
    parts_from(s, sep, 0)
}

/// Splits a text at each `sep`.
pub fn partes(s: &Vec<char>, sep: char) -> (v: Vec<Vec<char>>)
    ensures
        v@.len() == parts(s@, sep).len(),
        forall|k: int| 0 <= k < v@.len() ==> (#[trigger] v@[k])@ == parts(s@, sep)[k],
{
    let mut v: Vec<Vec<char>> = Vec::new();
    let mut parte: Vec<char> = Vec::new();
    let n = s.len();
    let mut i: usize = 0;
    let ghost a: int = 0;
    let ghost hechos: Seq<Seq<char>> = Seq::empty();
    while i < n
        invariant
            0 <= a <= i <= n,
            n == s@.len(),
            v@.len() == hechos.len(),
            forall|k: int| 0 <= k < v@.len() ==> (#[trigger] v@[k])@ == hechos[k],
            parts(s@, sep) == hechos + parts_from(s@, sep, a),
            parte@ == s@.subrange(a, i as int),
            next_sep(s@, sep, a) == next_sep(s@, sep, i as int),
        decreases n - i,
    {
        if s[i] == sep {
            proof {
                assert(next_sep(s@, sep, a) == i);
                hechos = hechos.push(parte@);
                a = i + 1;
                assert(parts(s@, sep) =~= hechos + parts_from(s@, sep, a));
            }
            v.push(parte);
            parte = Vec::new();
            assert(parte@ =~= s@.subrange(a, i + 1));
        } else {
            parte.push(s[i]);
            assert(s@.subrange(a, i + 1) =~= s@.subrange(a, i as int).push(s@[i as int]));
        }
        i += 1;
    }
    proof {
        assert(next_sep(s@, sep, a) == n);
        assert(parts_from(s@, sep, a) =~= seq![s@.subrange(a, n as int)]);
    }
    v.push(parte);
    v
}

/// A decimal digit.
pub open spec fn is_digit(c: char) -> bool {
    '0' <= c <= '9'
}

/// The value of a decimal digit.
pub open spec fn digit_value(c: char) -> int {
    c as int - '0' as int
}

/// The number that a run of digits writes.
pub open spec fn digits_value(s: Seq<char>) -> int
    decreases s.len(),
{
    if s.len() == 0 {
        0
    } else {
        10 * digits_value(s.drop_last()) + digit_value(s.last())
    }
}

/// Every character of the text is a digit.
pub open spec fn all_digits(s: Seq<char>) -> bool {
    forall|i: int| 0 <= i < s.len() ==> is_digit(#[trigger] s[i])
}

/// Whether the text starts with a sign.
pub open spec fn has_sign(s: Seq<char>) -> bool {
    s.len() > 0 && (s[0] == '-' || s[0] == '+')
}

/// The digits of a number's text: what follows its sign, if it has one.
pub open spec fn number_body(s: Seq<char>) -> Seq<char> {
    if has_sign(s) {
        s.drop_first()
    } else {
        s
    }
}

/// The number that a text writes: an optional sign and one or more digits.
pub open spec fn number_value(s: Seq<char>) -> int {
    if s.len() > 0 && s[0] == '-' {
        -digits_value(number_body(s))
    } else {
        digits_value(number_body(s))
    }
}

/// Why a text is no 16-bit number.
#[derive(Clone, Copy, Debug, PartialEq, Eq)]
pub enum ErrorNumero {
    /// The text is empty.
    Vacio,
    /// Something other than a digit stands in it, or no digit at all.
    Digito,
    /// The number does not fit in 16 bits.
    Rango,
}

/// What reading a 16-bit number from a text gives.
pub open spec fn parse_i16(s: Seq<char>) -> Result<i16, ErrorNumero> {
    if s.len() == 0 {
        Err(ErrorNumero::Vacio)
    } else if number_body(s).len() == 0 || !all_digits(number_body(s)) {
        Err(ErrorNumero::Digito)
    } else if number_value(s) < i16::MIN || number_value(s) > i16::MAX {
        Err(ErrorNumero::Rango)
    } else {
        Ok(number_value(s) as i16)
    }
}

proof fn lemma_digits_grow(s: Seq<char>)
    requires
        s.len() > 0,
        all_digits(s),
    ensures
        digits_value(s) >= digits_value(s.drop_last()) >= 0,
    decreases s.len(),
{
    assert(is_digit(s[s.len() - 1]));
    if s.len() > 1 {
        assert forall|i: int| 0 <= i < s.drop_last().len() implies is_digit(
            #[trigger] s.drop_last()[i],
        ) by {
            assert(s.drop_last()[i] == s[i]);
        }
        lemma_digits_grow(s.drop_last());
    }
}

/// Reads a 16-bit number from the characters of a text.
pub fn lee_entero(s: &Vec<char>) -> (r: Result<i16, ErrorNumero>)
    ensures
        r == parse_i16(s@),
{
    let n = s.len();
    if n == 0 {
        return Err(ErrorNumero::Vacio);
    }
    let negativo = s[0] == '-';
    let inicio: usize = if s[0] == '-' || s[0] == '+' {
        1
    } else {
        0
    };
    if inicio == n {
        return Err(ErrorNumero::Digito);
    }
    let ghost body = number_body(s@);
    assert(body =~= s@.subrange(inicio as int, n as int));
    let mut acc: i32 = 0;
    let mut grande = false;
    let mut i: usize = inicio;
    assert(body.take(0) =~= Seq::<char>::empty());
    while i < n
        invariant
            inicio <= i <= n,
            n == s@.len(),
            body == s@.subrange(inicio as int, n as int),
            body == number_body(s@),
            all_digits(body.take(i - inicio)),
            !grande ==> acc == digits_value(body.take(i - inicio)) && 0 <= acc <= 40000,
            grande ==> digits_value(body.take(i - inicio)) > 40000,
        decreases n - i,
    {
        let c = s[i];
        let ghost antes = body.take(i - inicio);
        let ghost ahora = body.take(i - inicio + 1);
        proof {
            assert(ahora.drop_last() =~= antes);
            assert(ahora.last() == c);
        }
        if !(c >= '0' && c <= '9') {
            proof {
                assert(body[i - inicio] == c);
                assert(!is_digit(body[i - inicio]));
                assert(!all_digits(body));
                assert(number_body(s@) == body);
            }
            return Err(ErrorNumero::Digito);
        }
        proof {
            assert forall|k: int| 0 <= k < ahora.len() implies is_digit(#[trigger] ahora[k]) by {
                if k < antes.len() {
                    assert(ahora[k] == antes[k]);
                }
            }
            lemma_digits_grow(ahora);
        }
        if !grande {
            acc = acc * 10 + (c as i32 - '0' as i32);
            if acc > 40000 {
                grande = true;
            }
        } else {
            assert(digits_value(ahora) >= 10 * digits_value(antes));
        }
        i += 1;
    }
    assert(body.take(n - inicio) =~= body);
    if grande {
        return Err(ErrorNumero::Rango);
    }
    let valor: i32 = if negativo {
        -acc
    } else {
        acc
    };
    if valor < -32768 || valor > 32767 {
        Err(ErrorNumero::Rango)
    } else {
        Ok(valor as i16)
    }
}

/// Reads a 16-bit number from a text.
pub fn texto_a_int(number_str: &str) -> (r: Result<i16, ErrorNumero>)
    ensures
        r == parse_i16(number_str@),
{
    let v = a_caracteres(number_str);
    lee_entero(&v)
}

/// The decimal digits, by value.
pub const DIGITS: [char; 10] = ['0', '1', '2', '3', '4', '5', '6', '7', '8', '9'];

/// The digits of a number that is not negative, without leading zeros.
pub open spec fn digits_of(n: int) -> Seq<char>
    decreases n,
{
    if n < 10 {
        seq![DIGITS@[n]]
    } else {
        digits_of(n / 10).push(DIGITS@[n % 10])
    }
}

/// The decimal text of a number, with `-` before a negative one.
pub open spec fn decimal(n: int) -> Seq<char> {
    if n < 0 {
        seq!['-'] + digits_of(-n)
    } else {
        digits_of(n)
    }
}

/// Appends the digits of `n`.
pub fn pon_digitos(s: &mut String, n: u64)
    ensures
        final(s)@ == old(s)@ + digits_of(n as int),
    decreases n,
{
    if n >= 10 {
        pon_digitos(s, n / 10);
    }
    s.push(DIGITS[(n % 10) as usize]);
    assert(s@ =~= old(s)@ + digits_of(n as int));
}

/// Appends the decimal text of `n`.
pub fn pon_entero(s: &mut String, n: i16)
    ensures
        final(s)@ == old(s)@ + decimal(n as int),
{
    if n < 0 {
        s.push('-');
        pon_digitos(s, (-(n as i32)) as u64);
        assert(s@ =~= old(s)@ + decimal(n as int));
    } else {
        pon_digitos(s, n as u64);
    }
}

} // verus!
