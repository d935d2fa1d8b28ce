use ajedrez::notacion::limpia;
use ajedrez::san::{origenes, partes_san, SanPartes};
use ajedrez::{
    ascii, crea_algebra, crea_flags, crea_san, crea_uci, desambigua, generate_moves, get_fen,
    get_pieza, jugadas_posibles, make_movim, move_from_san, mueve_algebra, mueve_san, pgn,
    pieza_char, reset, set_fen, stripped_san, tablero_grafico, unmake_movim, Movim, Tablero,
};
use regex::Regex;

fn desde_fen(fen: &str) -> Tablero {
    let mut t = Tablero::init();
    assert!(set_fen(fen, &mut t));
    t
}

fn letras(s: &str) -> Vec<char> {
    s.chars().collect()
}

fn ninguna() -> Movim {
    Movim::init(0, 0, 0, 0, 0, [0, 0, 0, 0])
}

#[test]
fn piece_and_kind_letters() {
    let piezas = ["p", "n", "b", "r", "q", "k", "-", "K", "Q", "R", "B", "N", "P"];
    for (i, letra) in piezas.iter().enumerate() {
        assert_eq!(pieza_char(i as i16 - 6), *letra);
    }
    assert_eq!(pieza_char(7), "");
    assert_eq!(pieza_char(-7), "");
    let tipos = ["O", "S", "L", "E", "Q", "R", "B", "N"];
    for (i, letra) in tipos.iter().enumerate() {
        assert_eq!(crea_flags(i as i16), *letra);
    }
    assert_eq!(crea_flags(8), "");
    assert_eq!(crea_flags(-1), "");
}

#[test]
fn coordinates_of_moves() {
    assert_eq!(crea_uci(Movim::init(6, 20, 52, 0, 0, [0; 4])), "e2e4");
    assert_eq!(crea_uci(Movim::init(1, 4, 6, 0, 1, [0; 4])), "e1g1");
    assert_eq!(crea_uci(Movim::init(-6, 17, 0, 3, 4, [0; 4])), "b2a1q");
    assert_eq!(crea_uci(Movim::init(6, 103, 119, 0, 5, [0; 4])), "h7h8r");
    assert_eq!(crea_uci(Movim::init(6, 96, 112, 0, 6, [0; 4])), "a7a8b");
    assert_eq!(crea_uci(Movim::init(6, 96, 113, -5, 7, [0; 4])), "a7b8n");
    // Beside the board a coordinate is left out.
    assert_eq!(crea_uci(Movim::init(6, 8, 128, 0, 0, [0; 4])), "1a");
}

#[test]
fn legal_moves_of_the_start_in_the_order_of_the_board() {
    let mut t = reset();
    assert_eq!(
        jugadas_posibles(&mut t),
        [
            "b1c3", "b1a3", "g1h3", "g1f3", "a2a3", "a2a4", "b2b3", "b2b4", "c2c3", "c2c4",
            "d2d3", "d2d4", "e2e3", "e2e4", "f2f3", "f2f4", "g2g3", "g2g4", "h2h3", "h2h4",
        ]
    );
    assert_eq!(t, reset());
}

#[test]
fn decorations_are_stripped_as_the_pattern_strips_them() {
    let patron = Regex::new(r"[+#]?[?!]*$").unwrap();
    for san in [
        "", "e4", "Nf3+", "Qh4#", "e8=Q", "e8=Q+", "e8=Q#!!", "Nf3?", "Nf3!?", "Nf3+?!", "Nf3?+",
        "Nf3++", "Nf3#+", "+", "#", "?", "+?", "?+?", "=", "==", "a=b=c", "O-O+", "O-O-O#",
        "!Nf3", "N+f3", "Nf3+ ", "exd6 e.p.", "++", "?!?!", "x+#+",
    ] {
        let esperado = patron.replace_all(&san.replace('=', ""), "").to_string();
        assert_eq!(stripped_san(san.to_string()), esperado, "{:?}", san);
        assert_eq!(limpia(&letras(san)), letras(&esperado), "{:?}", san);
    }
}

#[test]
fn the_parts_of_a_move_are_those_the_pattern_finds() {
    let patron =
        Regex::new(r"^([NBKRQ])?([a-h])?([1-8])?x?([a-h][1-8])(=?[nbrqkNBRQK])?(\\+|#)?$")
            .unwrap();
    let uno = |c: Option<regex::Match>| c.map(|m| m.as_str().chars().next().unwrap());
    let mut textos: Vec<String> = [
        "", "e4", "e9", "i4", "Nf3", "Nbd2", "N1d2", "Nb1d2", "exd5", "e4d5", "e4xd5", "Bb5",
        "bb5", "b4b", "bxc8Q", "e8Q", "e8q", "e8K", "e8QQ", "Qxe8", "Qaxe8", "Q1xe8", "Qa1xe8",
        "Kxe1", "Pe4", "O-O", "O-O-O", "e4#", "e4##", "e4\\", "e4\\\\\\", "e4\\#", "e4#\\",
        "xe4", "xxe4", "Nxxf3", "Nf3x", "e4e5e6", "a1b2c3", "ab1", "a1b", "1e4", "11e4", "N",
        "Nf", "f3N", "Rad1", "R1a3", "Rd1d2", "h8N\\", "ｅ4", "b1b", "bb1b", "b1b1b", "Bb1b1b",
    ]
    .iter()
    .map(|s| s.to_string())
    .collect();
    for a in ["", "N", "B", "Q"] {
        for b in ["", "a", "h", "1", "8", "a1", "h8", "x"] {
            for c in ["", "x", "c3", "xc3", "c3Q", "f8b", "1", "b"] {
                textos.push(format!("{}{}{}", a, b, c));
            }
        }
    }
    let mut halladas = 0;
    for texto in &textos {
        let esperado = patron.captures(texto).map(|c| {
            let destino: Vec<char> = c.get(4).unwrap().as_str().chars().collect();
            SanPartes {
                pieza: uno(c.get(1)),
                columna: uno(c.get(2)),
                fila: uno(c.get(3)),
                destino_columna: destino[0],
                destino_fila: destino[1],
                promo: uno(c.get(5)),
            }
        });
        if esperado.is_some() {
            halladas += 1;
        }
        assert_eq!(partes_san(&letras(texto)), esperado, "{:?}", texto);
    }
    assert!(halladas > 40);
}

#[test]
fn every_legal_move_written_without_ambiguity_is_read_back() {
    let posiciones = [
        "rnbqkbnr/pppppppp/8/8/8/8/PPPPPPPP/RNBQKBNR w KQkq - 0 1",
        "rnbqkbnr/pppp1ppp/8/4p3/4P3/8/PPPP1PPP/RNBQKBNR w KQkq e6 0 2",
        "r1bqk2r/pppp1ppp/2n2n2/2b1p3/2B1P3/5N2/PPPP1PPP/RNBQK2R w KQkq - 4 4",
        "r3k2r/8/8/8/8/8/8/R3K2R b KQkq - 0 1",
        "4k3/P6P/8/8/8/8/p6p/4K3 w - - 0 1",
        "4k3/P6P/8/8/8/8/p6p/4K3 b - - 0 1",
        "6k1/5ppp/8/8/8/8/8/R5K1 w - - 0 1",
    ];
    let mut leidas = 0;
    for fen in posiciones {
        let mut t = desde_fen(fen);
        let legales = generate_moves(&mut t);
        for m in &legales {
            make_movim(&mut t, *m);
            let san = crea_san(&mut t, *m);
            unmake_movim(&mut t, *m);
            let iguales = legales
                .iter()
                .filter(|o| {
                    o.piece_moving == m.piece_moving
                        && o.to_index == m.to_index
                        && o.move_type == m.move_type
                })
                .count();
            if iguales == 1 {
                assert_eq!(move_from_san(&mut t, &san), *m, "{} in {}", san, fen);
                leidas += 1;
            }
        }
        assert_eq!(get_fen(&t), fen);
    }
    assert!(leidas > 120);
}

#[test]
fn castles_are_read_from_their_text() {
    let mut t = desde_fen("r3k2r/8/8/8/8/8/8/R3K2R w KQkq - 0 1");
    let corto = move_from_san(&mut t, "O-O");
    assert_eq!((corto.piece_moving, corto.from_index, corto.to_index, corto.move_type), (1, 4, 6, 1));
    let largo = move_from_san(&mut t, "O-O-O+");
    assert_eq!((largo.piece_moving, largo.from_index, largo.to_index, largo.move_type), (1, 4, 2, 2));
    let r = mueve_san(&mut t, "O-O");
    assert_eq!((r.0.as_str(), r.1.as_str(), r.2.as_str(), r.3.as_str(), r.4.as_str()), ("O-O", "e1g1", "w", "K", "S"));
    let r = mueve_san(&mut t, "O-O-O");
    assert_eq!((r.0.as_str(), r.1.as_str(), r.2.as_str(), r.3.as_str(), r.4.as_str()), ("O-O-O", "e8c8", "b", "k", "L"));
    assert_eq!(get_fen(&t), "2kr3r/8/8/8/8/8/8/R4RK1 w - - 2 2");
    assert_eq!(move_from_san(&mut t, "O-O"), ninguna());
}

#[test]
fn a_file_or_rank_of_origin_tells_two_pieces_apart() {
    let mut t = desde_fen("4k3/8/8/8/8/8/8/RN2KN1R w - - 0 1");
    let m = move_from_san(&mut t, "Nbd2");
    assert_eq!((m.from_index, m.to_index), (1, 19));
    let m = move_from_san(&mut t, "Nfd2");
    assert_eq!((m.from_index, m.to_index), (5, 19));
    let m = move_from_san(&mut t, "Nb1d2");
    assert_eq!((m.from_index, m.to_index), (1, 19));
    // Without it, the first origin in the order of the knight's steps is taken.
    let m = move_from_san(&mut t, "Nd2");
    assert_eq!((m.from_index, m.to_index), (1, 19));
    let mut t = desde_fen("4k3/8/8/R7/8/8/8/R3K3 w - - 0 1");
    let m = move_from_san(&mut t, "R1a3");
    assert_eq!((m.from_index, m.to_index), (0, 32));
    let m = move_from_san(&mut t, "R5a3");
    assert_eq!((m.from_index, m.to_index), (64, 32));
}

#[test]
fn pawn_moves_are_read_from_their_text() {
    let mut t = desde_fen("rnbqkbnr/ppp1pppp/8/3pP3/8/8/PPPP1PPP/RNBQKBNR w KQkq d6 0 3");
    let m = move_from_san(&mut t, "e6");
    assert_eq!((m.from_index, m.to_index, m.move_type), (68, 84, 0));
    let m = move_from_san(&mut t, "exd6");
    assert_eq!((m.from_index, m.to_index, m.move_type, m.capture), (68, 83, 3, -6));
    let m = move_from_san(&mut t, "d4");
    assert_eq!((m.from_index, m.to_index), (19, 51));
    // The text of the capture en passant as it is written is not read back.
    assert_eq!(move_from_san(&mut t, "exd6 e.p."), ninguna());
    let mut t = desde_fen("1n2k3/P7/8/8/8/8/8/4K3 w - - 0 1");
    assert_eq!(move_from_san(&mut t, "a8"), ninguna());
    assert_eq!(move_from_san(&mut t, "a8=Q").move_type, 4);
    assert_eq!(move_from_san(&mut t, "a8R").move_type, 5);
    assert_eq!(move_from_san(&mut t, "axb8=N").move_type, 7);
    assert_eq!(move_from_san(&mut t, "axb8=B+").capture, -5);
    assert_eq!(move_from_san(&mut t, "axb8").move_type, 4);
    assert_eq!(move_from_san(&mut t, "a8=K"), ninguna());
    assert_eq!(move_from_san(&mut t, "a8=q"), ninguna());
}

#[test]
fn a_sliding_piece_is_found_where_the_mover_attacks_the_destination() {
    let mut t = desde_fen("4k3/8/8/8/8/8/8/R3K3 w - - 0 1");
    assert_eq!(move_from_san(&mut t, "Ra5").from_index, 0);
    assert_eq!(move_from_san(&mut t, "Rd1").from_index, 0);
    assert_eq!(move_from_san(&mut t, "Rb2"), ninguna());
    let mut t = reset();
    mueve_san(&mut t, "e4");
    mueve_san(&mut t, "e5");
    let r = mueve_san(&mut t, "Bc4");
    assert_eq!(r.1, "f1c4");
    let r = mueve_san(&mut t, "Qh4!?");
    assert_eq!((r.0.as_str(), r.1.as_str()), ("Qh4!?", "d8h4"));
}

#[test]
fn squares_a_piece_may_have_come_from() {
    let t = reset();
    // A knight or king may have come from any occupied square a step away.
    assert_eq!(origenes(&t, 5, 37), [6, 4, 19, 23]);
    assert_eq!(origenes(&t, 5, 34), [3, 1, 16, 20]);
    assert_eq!(origenes(&t, 1, 20), [5, 3, 19, 4, 21]);
    // A pawn from where a pawn stands; its unused steps give a1.
    assert_eq!(origenes(&t, 6, 52), [20, 0, 0, 0, 0]);
    assert_eq!(origenes(&t, 6, 36), [20, 19, 21, 0, 0, 0, 0]);
    // f3 is attacked by white: every square of the rook's lines is an origin.
    assert_eq!(origenes(&t, 3, 37), [36, 35, 34, 33, 32, 21, 5, 38, 39, 53, 69, 85, 101, 117]);
    // e4 is not: no origin for a sliding piece.
    assert_eq!(origenes(&t, 3, 52), Vec::<i16>::new());
    assert_eq!(origenes(&t, 4, 52), Vec::<i16>::new());
}

#[test]
fn squares_of_a_file_and_of_a_rank() {
    let (columna, fila) = desambigua(Some('c'), Some('5'));
    assert_eq!(columna, [2, 18, 34, 50, 66, 82, 98, 114]);
    assert_eq!(fila, [64, 65, 66, 67, 68, 69, 70, 71]);
    let (columna, fila) = desambigua(None, Some('1'));
    assert!(columna.is_empty());
    assert_eq!(fila, [0, 1, 2, 3, 4, 5, 6, 7]);
    let (columna, fila) = desambigua(Some('h'), None);
    assert_eq!(columna, [7, 23, 39, 55, 71, 87, 103, 119]);
    assert!(fila.is_empty());
}

#[test]
fn a_move_by_coordinates_is_the_only_legal_one_between_its_squares() {
    let mut t = reset();
    let m = crea_algebra(&mut t, ("g1", "f3", ""));
    assert_eq!((m.piece_moving, m.from_index, m.to_index, m.capture, m.move_type), (5, 6, 37, 0, 0));
    assert_eq!(m.prev_pos, [-1, 3, 3, 0]);
    assert_eq!(crea_algebra(&mut t, ("g1", "g3", "")), ninguna());
    assert_eq!(crea_algebra(&mut t, ("G1", "f3", "")), ninguna());
    assert_eq!(crea_algebra(&mut t, ("g1 ", "f3", "")), ninguna());
    let mut t = desde_fen("r3k2r/8/8/8/8/8/8/R3K2R w KQkq - 0 1");
    assert_eq!(crea_algebra(&mut t, ("e1", "g1", "")).move_type, 1);
    assert_eq!(crea_algebra(&mut t, ("e1", "c1", "")).move_type, 2);
    assert_eq!(crea_algebra(&mut t, ("e1", "c1", "Q")).move_type, 2);
}

#[test]
fn the_board_as_it_is_shown() {
    let t = reset();
    let piezas = tablero_grafico(&t);
    assert_eq!(piezas.len(), 64);
    assert_eq!(piezas.concat(), "rnbqkbnrpppppppp--------------------------------PPPPPPPPRNBQKBNR");
    assert_eq!(get_pieza(&t, "e1"), "K");
    assert_eq!(get_pieza(&t, "d8"), "q");
    assert_eq!(get_pieza(&t, "a2"), "P");
    assert_eq!(get_pieza(&t, "h5"), "-");
    assert_eq!(get_pieza(&t, "i1"), "None");
    assert_eq!(get_pieza(&t, "e"), "None");
    assert_eq!(get_pieza(&t, "e10"), "None");
    assert_eq!(
        ascii(&t),
        "  +--------------------------+\n\
         8 |  r  n  b  q  k  b  n  r  |\n\
         7 |  p  p  p  p  p  p  p  p  |\n\
         6 |  -  -  -  -  -  -  -  -  |\n\
         5 |  -  -  -  -  -  -  -  -  |\n\
         4 |  -  -  -  -  -  -  -  -  |\n\
         3 |  -  -  -  -  -  -  -  -  |\n\
         2 |  P  P  P  P  P  P  P  P  |\n\
         1 |  R  N  B  Q  K  B  N  R  |\n  \
           +--------------------------+\n     \
              a  b  c  d  e  f  g  h\n"
    );
}

#[test]
fn the_transcript_of_a_game() {
    let mut t = reset();
    for san in ["e4", "e5", "Nf3", "Nc6", "Bb5", "a6", "Bxc6", "dxc6", "O-O", "Qd4"] {
        assert_ne!(mueve_san(&mut t, san).0, "None", "{}", san);
    }
    assert_eq!(
        pgn(&t),
        "[FEN \"rnbqkbnr/pppppppp/8/8/8/8/PPPPPPPP/RNBQKBNR w KQkq - 0 1\"]\n\n\
         1. e4 e5 2. Nf3 Nc6 3. Bb5 a6 4. Bxc6 dxc6 5. O-O Qd4 \n"
    );
    let mut t = desde_fen("4k3/8/8/8/8/8/r7/4K3 b - - 3 20");
    mueve_algebra(&mut t, ("a2", "a1", ""));
    mueve_algebra(&mut t, ("e1", "e2", ""));
    mueve_algebra(&mut t, ("a1", "a2", ""));
    assert_eq!(pgn(&t), "[FEN \"4k3/8/8/8/8/8/r7/4K3 b - - 0 1\"]\n\n1. ... Ra1+ 2. Ke2 Ra2+ \n");
}

#[test]
fn a_log_that_cannot_be_played_again_has_no_transcript() {
    let mut t = reset();
    mueve_san(&mut t, "e4");
    t.history[0].mov.from_index = 36;
    assert_eq!(pgn(&t), "None");
    let mut t = reset();
    mueve_san(&mut t, "e4");
    t.history[0].posicion = "nothing".to_string();
    assert_eq!(pgn(&t), "None");
}
