use ajedrez::fen::{fen_mutilada, pieza_de_letra, letra_de_pieza};
use ajedrez::texto::{a_caracteres, campos, lee_entero, partes, pon_entero};
use ajedrez::{
    carga_fen, get_fen, reset, set_fen, texto_a_int, valida_fen, ErrorFen, ErrorNumero, Tablero,
};

const INICIO: &str = "rnbqkbnr/pppppppp/8/8/8/8/PPPPPPPP/RNBQKBNR w KQkq - 0 1";

fn letras(s: &str) -> Vec<char> {
    s.chars().collect()
}

#[test]
fn numbers_are_read_as_the_standard_library_reads_them() {
    for texto in [
        "0", "7", "42", "007", "+5", "-3", "-0", "32767", "-32768", "32768", "-32769", "99999",
        "", "+", "-", "12a", "a12", " 1", "1 ", "--1", "+-1", "1e3", "٣", "000000000000032767",
        "65536", "4294967297",
    ] {
        let esperado = texto.parse::<i16>().ok();
        assert_eq!(texto_a_int(texto).ok(), esperado, "{:?}", texto);
        assert_eq!(lee_entero(&letras(texto)).ok(), esperado, "{:?}", texto);
    }
}

#[test]
fn each_number_error_has_its_input() {
    assert_eq!(texto_a_int(""), Err(ErrorNumero::Vacio));
    assert_eq!(texto_a_int("-"), Err(ErrorNumero::Digito));
    assert_eq!(texto_a_int("12x"), Err(ErrorNumero::Digito));
    assert_eq!(texto_a_int("99999x"), Err(ErrorNumero::Digito));
    assert_eq!(texto_a_int("32768"), Err(ErrorNumero::Rango));
    assert_eq!(texto_a_int("-32769"), Err(ErrorNumero::Rango));
    assert_eq!(texto_a_int("-32768"), Ok(-32768));
    assert_eq!(texto_a_int("+32767"), Ok(32767));
}

#[test]
fn numbers_are_written_as_the_standard_library_writes_them() {
    for n in [0i16, 1, 9, 10, 11, 99, 100, 101, 12345, 32767, -1, -10, -32768] {
        let mut s = String::from("n=");
        pon_entero(&mut s, n);
        assert_eq!(s, format!("n={}", n));
        assert_eq!(texto_a_int(&s[2..]), Ok(n));
    }
}

#[test]
fn characters_of_a_text() {
    assert_eq!(a_caracteres("aé♞z"), vec!['a', 'é', '♞', 'z']);
    assert_eq!(a_caracteres(""), Vec::<char>::new());
}

#[test]
fn fields_are_what_white_space_separates() {
    for texto in [
        "", " ", "a", " a", "a ", "a b", "  a \t b\nc  ", "a\u{a0}b", "a\u{2003}b\u{3000}c",
        "a\u{200b}b", INICIO, "  x  ",
    ] {
        let esperado: Vec<Vec<char>> =
            texto.split_whitespace().map(|c| c.chars().collect()).collect();
        assert_eq!(campos(&letras(texto)), esperado, "{:?}", texto);
    }
}

#[test]
fn parts_are_what_a_separator_separates() {
    for texto in ["", "/", "a", "a/b", "a//b", "/a/", "8/8/8/8/8/8/8/8", "a/b/"] {
        let esperado: Vec<Vec<char>> = texto.split('/').map(|c| c.chars().collect()).collect();
        assert_eq!(partes(&letras(texto), '/'), esperado, "{:?}", texto);
    }
}

#[test]
fn piece_letters() {
    let pares = [
        ('K', 1), ('Q', 2), ('R', 3), ('B', 4), ('N', 5), ('P', 6),
        ('k', -1), ('q', -2), ('r', -3), ('b', -4), ('n', -5), ('p', -6),
    ];
    for (letra, pieza) in pares {
        assert_eq!(pieza_de_letra(letra), pieza);
        assert_eq!(letra_de_pieza(pieza), letra);
    }
    assert_eq!(pieza_de_letra('x'), 0);
    assert_eq!(pieza_de_letra('1'), 0);
    assert_eq!(letra_de_pieza(0), '-');
}

#[test]
fn a_fen_sets_every_field() {
    let mut t = Tablero::init();
    assert!(set_fen("r3k2r/8/8/8/3pP3/8/8/R3K2R b Kq e3 12 34", &mut t));
    assert_eq!(t.to_move, -1);
    assert_eq!(t.en_passant, 36);
    assert_eq!(t.white_castle, 1);
    assert_eq!(t.black_castle, 2);
    assert_eq!(t.moves_fifty, 12);
    assert_eq!(t.moves_full, 34);
    assert_eq!(t.board_array[0], 3);
    assert_eq!(t.board_array[4], 1);
    assert_eq!(t.board_array[7], 3);
    assert_eq!(t.board_array[51], -6);
    assert_eq!(t.board_array[52], 6);
    assert_eq!(t.board_array[112], -3);
    assert_eq!(t.board_array[116], -1);
    assert_eq!(t.board_array[119], -3);
    assert_eq!(t.board_array.iter().filter(|p| **p != 0).count(), 8);
    assert!(t.history.is_empty());
}

#[test]
fn a_fen_replaces_what_was_on_the_board() {
    let mut t = reset();
    ajedrez::mueve_algebra(&mut t, ("e2", "e4", ""));
    assert!(set_fen("4k3/8/8/8/8/8/8/4K3 w - - 0 1", &mut t));
    assert_eq!(get_fen(&t), "4k3/8/8/8/8/8/8/4K3 w - - 0 1");
    assert_eq!(t.white_castle, 0);
    assert_eq!(t.en_passant, -1);
    assert!(t.history.is_empty());
}

#[test]
fn castling_letters_count_in_any_order() {
    let mut t = Tablero::init();
    assert!(set_fen("r3k2r/8/8/8/8/8/8/R3K2R w QK - 0 1", &mut t));
    assert_eq!((t.white_castle, t.black_castle), (3, 0));
    assert!(set_fen("r3k2r/8/8/8/8/8/8/R3K2R w qkQ - 0 1", &mut t));
    assert_eq!((t.white_castle, t.black_castle), (2, 3));
    assert!(set_fen("r3k2r/8/8/8/8/8/8/R3K2R w kk - 0 1", &mut t));
    assert_eq!((t.white_castle, t.black_castle), (0, 1));
    assert_eq!(get_fen(&t), "r3k2r/8/8/8/8/8/8/R3K2R w k - 0 1");
}

#[test]
fn white_space_around_fields_is_not_counted() {
    let mut t = Tablero::init();
    assert!(set_fen("  rnbqkbnr/pppppppp/8/8/8/8/PPPPPPPP/RNBQKBNR \t w  KQkq -   0 1\n", &mut t));
    assert_eq!(get_fen(&t), INICIO);
}

#[test]
fn each_fen_error_has_its_input() {
    let casos = [
        ("", ErrorFen::Campos),
        ("rnbqkbnr/pppppppp/8/8/8/8/PPPPPPPP/RNBQKBNR w KQkq - 0", ErrorFen::Campos),
        ("rnbqkbnr/pppppppp/8/8/8/8/PPPPPPPP/RNBQKBNR w KQkq - 0 1 x", ErrorFen::Campos),
        ("rnbqkbnr/pppppppp/8/8/8/8/PPPPPPPP/RNBQKBNR w KQkq - 0 x", ErrorFen::Jugadas),
        ("rnbqkbnr/pppppppp/8/8/8/8/PPPPPPPP/RNBQKBNR w KQkq - 0 -1", ErrorFen::Jugadas),
        ("rnbqkbnr/pppppppp/8/8/8/8/PPPPPPPP/RNBQKBNR w KQkq - 0 40000", ErrorFen::Jugadas),
        ("rnbqkbnr/pppppppp/8/8/8/8/PPPPPPPP/RNBQKBNR w KQkq - x x", ErrorFen::Jugadas),
        ("rnbqkbnr/pppppppp/8/8/8/8/PPPPPPPP/RNBQKBNR w KQkq - x 1", ErrorFen::Medias),
        ("rnbqkbnr/pppppppp/8/8/8/8/PPPPPPPP/RNBQKBNR w KQkq - -2 1", ErrorFen::Medias),
        ("rnbqkbnr/pppppppp/8/8/8/8/PPPPPPPP/RNBQKBNR w KQkq e4 0 1", ErrorFen::AlPaso),
        ("rnbqkbnr/pppppppp/8/8/8/8/PPPPPPPP/RNBQKBNR w KQkq i3 0 1", ErrorFen::AlPaso),
        ("rnbqkbnr/pppppppp/8/8/8/8/PPPPPPPP/RNBQKBNR w KQkq e 0 1", ErrorFen::AlPaso),
        ("rnbqkbnr/pppppppp/8/8/8/8/PPPPPPPP/RNBQKBNR w KQkq e36 0 1", ErrorFen::AlPaso),
        ("rnbqkbnr/pppppppp/8/8/8/8/PPPPPPPP/RNBQKBNR w KQxq - 0 1", ErrorFen::Enroque),
        ("rnbqkbnr/pppppppp/8/8/8/8/PPPPPPPP/RNBQKBNR w -K - 0 1", ErrorFen::Enroque),
        ("rnbqkbnr/pppppppp/8/8/8/8/PPPPPPPP/RNBQKBNR W KQkq - 0 1", ErrorFen::Turno),
        ("rnbqkbnr/pppppppp/8/8/8/8/PPPPPPPP/RNBQKBNR wb KQkq - 0 1", ErrorFen::Turno),
        ("rnbqkbnr/pppppppp/8/8/8/8/PPPPPPPP w KQkq - 0 1", ErrorFen::Piezas),
        ("rnbqkbnr/pppppppp/8/8/8/8/8/PPPPPPPP/RNBQKBNR w KQkq - 0 1", ErrorFen::Piezas),
        ("rnbqkbnr/pppppppp/8/8/8/7/PPPPPPPP/RNBQKBNR w KQkq - 0 1", ErrorFen::Piezas),
        ("rnbqkbnr/pppppppp/8/8/8/9/PPPPPPPP/RNBQKBNR w KQkq - 0 1", ErrorFen::Piezas),
        ("rnbqkbnr/pppppppp/8/8/8/44/PPPPPPPP/RNBQKBNR w KQkq - 0 1", ErrorFen::Piezas),
        ("rnbqkbnr/pppppppp/8/8/8/8/PPPPPPPPP/RNBQKBNR w KQkq - 0 1", ErrorFen::Piezas),
        ("rnbqkbnr/pppppppp/8/8/8/8/PPPPxPPP/RNBQKBNR w KQkq - 0 1", ErrorFen::Piezas),
        ("rnbqkbnr/pppppppp/8/8/8/8/PPPPPPPP/RNBQKBNR/ w KQkq - 0 1", ErrorFen::Piezas),
        ("rnbqkbnr/pppppppp/8/8/4P3/8/PPPP1PPP/RNBQKBNR w KQkq e3 0 1", ErrorFen::Incoherente),
        ("rnbqkbnr/pppp1ppp/8/4p3/8/8/PPPPPPPP/RNBQKBNR b KQkq e6 0 1", ErrorFen::Incoherente),
    ];
    for (fen, esperado) in casos {
        assert_eq!(carga_fen(fen).err(), Some(esperado), "{:?}", fen);
        assert!(!valida_fen(fen));
        let mut t = reset();
        assert!(!set_fen(fen, &mut t));
        assert_eq!(t, reset());
    }
}

#[test]
fn zeros_in_a_rank_stand_for_no_square() {
    let mut t = Tablero::init();
    assert!(set_fen("4k3/8/8/8/8/8/8/0K3Q0R1N w - - 0 1", &mut t));
    assert_eq!(get_fen(&t), "4k3/8/8/8/8/8/8/K3QR1N w - - 0 1");
}

#[test]
fn the_short_fen_leaves_the_counters_out() {
    let mut t = Tablero::init();
    assert!(set_fen("rnbqkbnr/pppppppp/8/8/4P3/8/PPPP1PPP/RNBQKBNR b KQkq e3 7 9", &mut t));
    assert_eq!(fen_mutilada(&t), "rnbqkbnr/pppppppp/8/8/4P3/8/PPPP1PPP/RNBQKBNR b KQkq e3");
    assert_eq!(fen_mutilada(&Tablero::init()), "8/8/8/8/8/8/8/8 w - -");
    assert_eq!(get_fen(&Tablero::init()), "8/8/8/8/8/8/8/8 w - - 0 0");
}
