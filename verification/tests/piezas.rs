use ajedrez::defs::{
    attack_lookup, casilla_valor, columna, delta_lookup, en_tablero, fila, visto, ATTACK_ARRAY,
    DELTA_ARRAY, KING_DELTA, KNIGHT_DELTA, QUEEN_DELTA, ROOK_DELTA, SQUARE_NAMES,
};
use ajedrez::jugada::encaja;
use ajedrez::tablero::bien_formado;
use ajedrez::vista::{
    casilla_dibujada, casilla_pulsada, clave_casilla, indice_imagen, lado_casilla, nombre_casilla,
};
use ajedrez::{
    busca_rey, carga_fen, filter_moves, fn_columna, fn_fila, gen_castling, gen_moves, gen_pawn,
    generate_moves, generate_pseudo_moves, get_fen, make_movim, move_from_san, mueve_algebra,
    reset, set_fen, traverse_delta, unmake_movim, Historia, Movim, Tablero,
};

fn desde_fen(fen: &str) -> Tablero {
    let mut t = Tablero::init();
    assert!(set_fen(fen, &mut t));
    t
}

fn destinos(moves: &[Movim]) -> Vec<usize> {
    moves.iter().map(|m| m.to_index).collect()
}

#[test]
fn an_empty_board() {
    let t = Tablero::init();
    assert!(t.board_array.iter().all(|p| *p == 0));
    assert_eq!((t.to_move, t.en_passant, t.white_castle, t.black_castle), (1, -1, 0, 0));
    assert_eq!((t.moves_fifty, t.moves_full), (0, 0));
    assert!(t.history.is_empty());
}

#[test]
fn the_fields_of_a_board_are_set_one_by_one() {
    let mut t = Tablero::init();
    t.modif_board(52, 6);
    t.modif_bando(-1);
    t.modif_enroque_blanco(3);
    t.modif_enroque_negro(2);
    t.modif_paso(36);
    t.modif_medias(7);
    t.modif_todas(9);
    assert_eq!(get_fen(&t), "8/8/8/8/4P3/8/8/8 b KQq e3 7 9");
    let m = Movim::init(6, 20, 52, 0, 0, [-1, 3, 3, 0]);
    t.anade_historico(Historia { posicion: "x".to_string(), mov: m });
    assert_eq!(t.history.len(), 1);
    let h = t.quita_historico();
    assert_eq!((h.posicion.as_str(), h.mov), ("x", m));
    let h = t.quita_historico();
    assert_eq!((h.posicion.as_str(), h.mov.piece_moving), ("", 0));
    assert!(t.history.is_empty());
}

#[test]
fn squares_of_the_board() {
    let en = (-136i16..256).filter(|sq| en_tablero(*sq)).collect::<Vec<_>>();
    assert_eq!(en.len(), 64);
    assert!(en.iter().all(|sq| (0..120).contains(sq) && sq % 16 < 8));
    assert_eq!((fn_columna(0), fn_fila(0)), (0, 0));
    assert_eq!((fn_columna(119), fn_fila(119)), (7, 7));
    assert_eq!((fn_columna(52), fn_fila(52)), (4, 3));
    assert_eq!((fn_columna(-1), fn_fila(-1)), (15, -1));
    for i in 0..64 {
        let cv = casilla_valor(i);
        assert_eq!(cv.casilla, SQUARE_NAMES[i]);
        assert_eq!(nombre_casilla(cv.indice), cv.casilla);
        let letras: Vec<char> = cv.casilla.chars().collect();
        assert_eq!(ajedrez::notacion::casilla_de(letras[0], letras[1]), cv.indice);
    }
    assert_eq!(casilla_valor(0).indice, 112);
    assert_eq!(casilla_valor(63).indice, 7);
    let c = columna(2);
    assert_eq!((c.col, c.inds), ("c", [2, 18, 34, 50, 66, 82, 98, 114]));
    let f = fila(4);
    assert_eq!((f.fila, f.inds), (5, [64, 65, 66, 67, 68, 69, 70, 71]));
}

#[test]
fn a_piece_as_a_side_sees_it() {
    assert_eq!(visto(5, 1), 5);
    assert_eq!(visto(5, -1), -5);
    assert_eq!(visto(-6, -1), 6);
    assert_eq!(visto(0, -1), 0);
}

#[test]
fn the_tables_follow_the_geometry_of_the_board() {
    for from in (0i16..120).filter(|sq| sq & 0x88 == 0) {
        for to in (0i16..120).filter(|sq| sq & 0x88 == 0) {
            let dx = (to % 16 - from % 16) as i32;
            let dy = (to / 16 - from / 16) as i32;
            let (ax, ay) = (dx.abs(), dy.abs());
            let clase = if ax + ay == 0 {
                0
            } else if ax + ay == 1 {
                1
            } else if ax == 0 || ay == 0 {
                2
            } else if ax == 1 && ay == 1 {
                if dy == 1 { 3 } else { 4 }
            } else if ax == ay {
                5
            } else if ax + ay == 3 {
                6
            } else {
                0
            };
            let paso = match clase {
                0 => 0,
                6 => to - from,
                _ => (16 * dy.signum() + dx.signum()) as i16,
            };
            assert_eq!(attack_lookup(from, to), clase);
            assert_eq!(delta_lookup(from, to), paso);
        }
    }
    assert_eq!(ATTACK_ARRAY.len(), 257);
    assert_eq!(DELTA_ARRAY.len(), 257);
    assert_eq!(ATTACK_ARRAY[128 + 33], 6);
    assert_eq!(DELTA_ARRAY[128 - 34], -17);
}

#[test]
fn the_way_between_two_squares() {
    let t = reset();
    assert!(traverse_delta(&t, 20, 36));
    assert!(traverse_delta(&t, 16, 96));
    assert!(!traverse_delta(&t, 0, 32));
    assert!(!traverse_delta(&t, 2, 87));
    assert!(traverse_delta(&t, 19, 53));
}

#[test]
fn the_squares_of_the_kings() {
    let t = reset();
    assert_eq!(busca_rey(&t, 1), 4);
    assert_eq!(busca_rey(&t, -1), 116);
    assert_eq!(busca_rey(&t, 7), 4);
    let t = desde_fen("8/8/8/3k4/8/8/8/8 w - - 0 1");
    assert_eq!(busca_rey(&t, -1), 67);
    assert_eq!(busca_rey(&t, 1), 1024);
}

#[test]
fn moves_of_the_pieces_by_their_steps() {
    let t = desde_fen("4k3/8/8/3p4/8/1P1R4/8/4K3 w - - 0 1");
    let mut moves = Vec::new();
    gen_moves(&t, 35, ROOK_DELTA, true, &mut moves);
    assert_eq!(destinos(&moves), [34, 19, 3, 36, 37, 38, 39, 51, 67]);
    assert_eq!(moves[8].capture, -6);
    assert!(moves.iter().all(|m| m.piece_moving == 3 && m.from_index == 35 && m.move_type == 0));
    assert!(moves.iter().all(|m| m.prev_pos == [-1, 0, 0, 0]));
    let mut moves = Vec::new();
    gen_moves(&t, 4, KING_DELTA, false, &mut moves);
    assert_eq!(destinos(&moves), [19, 21, 3, 5, 20]);
    let t = reset();
    let mut moves = Vec::new();
    gen_moves(&t, 1, KNIGHT_DELTA, false, &mut moves);
    assert_eq!(destinos(&moves), [34, 32]);
    let mut moves = Vec::new();
    gen_moves(&t, 3, QUEEN_DELTA, true, &mut moves);
    assert!(moves.is_empty());
}

#[test]
fn moves_of_the_pawns() {
    let t = desde_fen("4k3/2P5/8/3pP3/8/p1p5/1P6/4K3 w - d6 0 1");
    let mut moves = Vec::new();
    gen_pawn(&t, 17, &mut moves);
    assert_eq!(destinos(&moves), [33, 32, 34, 49]);
    assert_eq!(moves.iter().map(|m| m.capture).collect::<Vec<_>>(), [0, -6, -6, 0]);
    let mut moves = Vec::new();
    gen_pawn(&t, 68, &mut moves);
    assert_eq!(destinos(&moves), [84, 83]);
    assert_eq!((moves[1].move_type, moves[1].capture), (3, -6));
    let mut moves = Vec::new();
    gen_pawn(&t, 98, &mut moves);
    assert_eq!(destinos(&moves), [114, 114, 114, 114]);
    assert_eq!(moves.iter().map(|m| m.move_type).collect::<Vec<_>>(), [4, 5, 6, 7]);
    let t = desde_fen("4k3/8/8/8/8/8/3p4/2B1K3 b - - 0 1");
    let mut moves = Vec::new();
    gen_pawn(&t, 19, &mut moves);
    assert_eq!(destinos(&moves), [3, 3, 3, 3, 4, 4, 4, 4, 2, 2, 2, 2]);
    assert!(moves.iter().all(|m| m.piece_moving == -6));
}

#[test]
fn a_pawn_on_the_last_rank_has_no_moves() {
    let t = desde_fen("P3k3/8/8/8/8/8/8/4K2p w - - 0 1");
    let mut moves = Vec::new();
    gen_pawn(&t, 112, &mut moves);
    assert!(moves.is_empty());
    let t = desde_fen("P3k3/8/8/8/8/8/8/4K2p b - - 0 1");
    gen_pawn(&t, 7, &mut moves);
    assert!(moves.is_empty());
}

#[test]
fn castles_of_the_side_to_move() {
    let t = desde_fen("r3k2r/8/8/8/8/8/8/R3K2R w KQkq - 0 1");
    let mut moves = Vec::new();
    gen_castling(&t, &mut moves);
    assert_eq!(destinos(&moves), [6, 2]);
    assert_eq!(moves.iter().map(|m| m.move_type).collect::<Vec<_>>(), [1, 2]);
    let t = desde_fen("r3k2r/8/8/8/8/8/8/R3K2R b Kq - 0 1");
    let mut moves = Vec::new();
    gen_castling(&t, &mut moves);
    assert_eq!(destinos(&moves), [114]);
    assert_eq!((moves[0].piece_moving, moves[0].from_index, moves[0].move_type), (-1, 116, 2));
    let t = desde_fen("r3k2r/8/8/8/8/8/8/RN2K1NR w KQ - 0 1");
    let mut moves = Vec::new();
    gen_castling(&t, &mut moves);
    assert!(moves.is_empty());
}

#[test]
fn moves_that_leave_the_king_attacked_are_filtered_out() {
    let mut t = desde_fen("4k3/8/8/8/8/8/4r3/4KB2 w - - 0 1");
    let antes = t.clone();
    let mut pseudo = Vec::new();
    generate_pseudo_moves(&t, &mut pseudo);
    assert_eq!(pseudo.len(), 7);
    let legales = filter_moves(&mut t, pseudo.clone());
    assert_eq!(t, antes);
    let textos: Vec<String> = legales.iter().map(|m| ajedrez::crea_uci(*m)).collect();
    assert_eq!(textos, ["e1d1", "e1e2", "f1e2"]);
    assert_eq!(generate_moves(&mut t), legales);
}

#[test]
fn boards_fit_for_play() {
    assert!(bien_formado(&reset()));
    assert!(bien_formado(&Tablero::init()));
    let casos = [
        ("4k3/8/8/8/8/8/8/4K3 w K - 0 1", false),
        ("4k3/8/8/8/8/8/8/4K2R w K - 0 1", true),
        ("4k3/8/8/8/8/8/8/4K2R w Q - 0 1", false),
        ("r3k3/8/8/8/8/8/8/4K3 w q - 0 1", true),
        ("r3k3/8/8/8/8/8/8/4K3 w k - 0 1", false),
        ("4k3/8/8/3pP3/8/8/8/4K3 w - d6 0 1", true),
        ("4k3/8/8/4P3/8/8/8/4K3 w - d6 0 1", false),
        ("4k3/8/3p4/3pP3/8/8/8/4K3 w - d6 0 1", false),
        ("4k3/8/8/8/8/8/8/4K3 w - - 32767 1", false),
        ("4k3/8/8/8/8/8/8/4K3 w - - 0 32767", false),
        ("4k3/8/8/8/8/8/8/4K3 w - - 32766 32766", true),
    ];
    for (fen, esperado) in casos {
        assert_eq!(bien_formado(&desde_fen(fen)), esperado, "{}", fen);
    }
    let mut t = reset();
    t.board_array[8] = 1;
    assert!(!bien_formado(&t));
    let mut t = reset();
    t.board_array[40] = 7;
    assert!(!bien_formado(&t));
    let mut t = reset();
    t.to_move = 2;
    assert!(!bien_formado(&t));
}

#[test]
fn moves_that_fit_a_board() {
    let mut t = reset();
    let legales = generate_moves(&mut t);
    assert!(legales.iter().all(|m| encaja(&t, *m)));
    let e4 = *legales.iter().find(|m| m.from_index == 20 && m.to_index == 52).unwrap();
    let cambia = |f: &dyn Fn(&mut Movim)| {
        let mut m = e4;
        f(&mut m);
        m
    };
    assert!(!encaja(&t, cambia(&|m| m.from_index = 36)));
    assert!(!encaja(&t, cambia(&|m| m.to_index = 53)));
    assert!(!encaja(&t, cambia(&|m| m.to_index = 68)));
    assert!(!encaja(&t, cambia(&|m| m.to_index = 8)));
    assert!(!encaja(&t, cambia(&|m| m.capture = -6)));
    assert!(!encaja(&t, cambia(&|m| m.move_type = 4)));
    assert!(!encaja(&t, cambia(&|m| m.move_type = 8)));
    assert!(!encaja(&t, cambia(&|m| m.piece_moving = 5)));
    assert!(!encaja(&t, cambia(&|m| m.prev_pos[3] = 1)));
    assert!(!encaja(&t, Movim::init(3, 0, 32, 0, 0, e4.prev_pos)));
    assert!(!encaja(&t, Movim::init(5, 1, 35, 0, 0, e4.prev_pos)));
    assert!(!encaja(&t, Movim::init(1, 4, 6, 0, 1, e4.prev_pos)));
    assert!(!encaja(&t, Movim::init(-6, 100, 68, 0, 0, e4.prev_pos)));
    for fen in [
        "r3k2r/p1ppqpb1/bn2pnp1/3PN3/1p2P3/2N2Q1p/PPPBBPPP/R3K2R w KQkq - 0 1",
        "rnbqkbnr/ppp1pppp/8/3pP3/8/8/PPPP1PPP/RNBQKBNR w KQkq d6 0 3",
        "4k3/P6P/8/8/8/8/p6p/4K3 b - - 0 1",
    ] {
        let mut t = desde_fen(fen);
        let mut pseudo = Vec::new();
        generate_pseudo_moves(&t, &mut pseudo);
        assert!(pseudo.iter().all(|m| encaja(&t, *m)), "{}", fen);
        for m in generate_moves(&mut t) {
            make_movim(&mut t, m);
            assert!(bien_formado(&t));
            unmake_movim(&mut t, m);
        }
    }
}

#[test]
fn the_text_of_a_position_read_back_is_the_position() {
    let mut t = reset();
    for j in ["e2e4", "c7c5", "g1f3", "d7d6", "d2d4", "c5d4", "f3d4", "g8f6", "b1c3", "a7a6"] {
        mueve_algebra(&mut t, (&j[0..2], &j[2..4], ""));
        let leido = carga_fen(&get_fen(&t)).unwrap();
        assert_eq!(leido.board_array, t.board_array);
        assert_eq!(
            (leido.to_move, leido.en_passant, leido.white_castle, leido.black_castle),
            (t.to_move, t.en_passant, t.white_castle, t.black_castle)
        );
        assert_eq!((leido.moves_fifty, leido.moves_full), (t.moves_fifty, t.moves_full));
    }
}

#[test]
fn texts_that_are_not_read_back_as_their_move() {
    // Two knights that reach one square: the text names the first that is found.
    let mut t = desde_fen("4k3/8/8/8/8/8/8/1N2KN2 w - - 0 1");
    let legales = generate_moves(&mut t);
    let desde_f1 = *legales.iter().find(|m| m.from_index == 5 && m.to_index == 19).unwrap();
    make_movim(&mut t, desde_f1);
    let san = ajedrez::crea_san(&mut t, desde_f1);
    unmake_movim(&mut t, desde_f1);
    assert_eq!(san, "Nd2");
    assert_eq!(move_from_san(&mut t, &san).from_index, 1);
    // A capture by a pawn of the a-file while another pawn stands on a1.
    let mut t = desde_fen("4k3/8/8/1p6/P7/8/8/P3K3 w - - 0 1");
    let legales = generate_moves(&mut t);
    let captura = *legales.iter().find(|m| m.from_index == 48 && m.to_index == 65).unwrap();
    make_movim(&mut t, captura);
    let san = ajedrez::crea_san(&mut t, captura);
    unmake_movim(&mut t, captura);
    assert_eq!(san, "axb5");
    assert_eq!(move_from_san(&mut t, &san).piece_moving, 0);
}

#[test]
fn cells_of_the_drawing() {
    assert_eq!(casilla_dibujada(0, 0, false), Some(0));
    assert_eq!(casilla_dibujada(7, 0, false), Some(7));
    assert_eq!(casilla_dibujada(4, 7, false), Some(116));
    assert_eq!(casilla_dibujada(0, 0, true), Some(119));
    assert_eq!(casilla_dibujada(0, 7, true), Some(7));
    assert_eq!(casilla_dibujada(7, 7, true), Some(0));
    assert_eq!(casilla_dibujada(8, 0, false), None);
    assert_eq!(casilla_dibujada(0, -1, true), None);
    assert_eq!(casilla_pulsada(0, 0, false), Some(112));
    assert_eq!(casilla_pulsada(4, 7, false), Some(4));
    assert_eq!(casilla_pulsada(0, 0, true), Some(7));
    assert_eq!(casilla_pulsada(7, 7, true), Some(112));
    assert_eq!(casilla_pulsada(-1, 3, false), None);
    assert_eq!(casilla_pulsada(3, 8, true), None);
    assert_eq!(lado_casilla(400, 800, 8), 50);
    assert_eq!(lado_casilla(807, 403, 8), 50);
    assert_eq!(lado_casilla(0, 5, 8), 0);
    assert_eq!(clave_casilla(0), 0);
    assert_eq!(clave_casilla(7), 7 << 8);
    assert_eq!(clave_casilla(116), (4 << 8) | 7);
    assert_eq!(nombre_casilla(0), "a1");
    assert_eq!(nombre_casilla(119), "h8");
    assert_eq!(nombre_casilla(52), "e4");
    let esperado = [(0, 5), (0, 4), (0, 3), (0, 2), (0, 1), (0, 0), (0, 0), (1, 5), (1, 4), (1, 3), (1, 2), (1, 1), (1, 0)];
    for (i, e) in esperado.iter().enumerate() {
        let pieza = [-1, -2, -3, -4, -5, -6, 0, 1, 2, 3, 4, 5, 6][i];
        assert_eq!(indice_imagen(pieza), *e);
    }
    assert_eq!(indice_imagen(9), (1, 0));
    assert_eq!(indice_imagen(-9), (0, 0));
}
