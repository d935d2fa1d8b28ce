use ajedrez::defs::{
    CASTLE_BOTH, CASTLE_LONG, CASTLE_NONE, CASTLE_SHORT, EN_PASSANT, ORDINARY_MOVE,
    PROMOTION_QUEEN, SHORT_CASTLE,
};
use ajedrez::{
    es_atacada, game_over, generate_moves, get_fen, jugadas_posibles, make_movim,
    material_insuficiente, mueve_algebra, mueve_atras, mueve_san, repeticion_triple, reset,
    rey_ahogado, rey_en_jaque, rey_en_mate, set_fen, unmake_movim, valida_fen, Tablero,
};

const INICIO: &str = "rnbqkbnr/pppppppp/8/8/8/8/PPPPPPPP/RNBQKBNR w KQkq - 0 1";
const KIWIPETE: &str = "r3k2r/p1ppqpb1/bn2pnp1/3PN3/1p2P3/2N2Q1p/PPPBBPPP/R3K2R w KQkq - 0 1";

fn desde_fen(fen: &str) -> Tablero {
    let mut t = Tablero::init();
    assert!(set_fen(fen, &mut t));
    t
}

fn juega(t: &mut Tablero, jugadas: &[&str]) {
    for j in jugadas {
        let r = mueve_algebra(t, (&j[0..2], &j[2..4], if j.len() > 4 { &j[4..5] } else { "" }));
        assert_ne!(r.0, "None", "move {} was refused", j);
    }
}

fn perft(t: &mut Tablero, depth: u32) -> u64 {
    if depth == 0 {
        return 1;
    }
    let moves = generate_moves(t);
    let mut n = 0;
    for m in moves {
        make_movim(t, m);
        n += perft(t, depth - 1);
        unmake_movim(t, m);
    }
    n
}

#[test]
fn perft_from_start() {
    let mut t = reset();
    assert_eq!(perft(&mut t, 1), 20);
    assert_eq!(perft(&mut t, 2), 400);
    assert_eq!(perft(&mut t, 3), 8902);
}

#[test]
fn perft_with_castles_promotions_and_en_passant() {
    let mut t = desde_fen(KIWIPETE);
    assert_eq!(perft(&mut t, 1), 48);
    assert_eq!(perft(&mut t, 2), 2039);
    let mut t = desde_fen("8/2p5/3p4/KP5r/1R3p1k/8/4P1P1/8 w - - 0 1");
    assert_eq!(perft(&mut t, 1), 14);
    assert_eq!(perft(&mut t, 2), 191);
    assert_eq!(perft(&mut t, 3), 2812);
    let mut t = desde_fen("rnbq1k1r/pp1Pbppp/2p5/8/2B5/8/PPP1NnPP/RNBQK2R w KQ - 1 8");
    assert_eq!(perft(&mut t, 1), 44);
    assert_eq!(perft(&mut t, 2), 1486);
}

#[test]
fn new_game_is_the_start_position() {
    let t = reset();
    assert_eq!(get_fen(&t), INICIO);
    assert_eq!(t, desde_fen(INICIO));
    assert!(t.history.is_empty());
}

#[test]
fn fen_round_trip() {
    for fen in [
        INICIO,
        "rnbqkbnr/pppppppp/8/8/4P3/8/PPPP1PPP/RNBQKBNR b KQkq e3 0 1",
        KIWIPETE,
        "8/2p5/3p4/KP5r/1R3p1k/8/4P1P1/8 w - - 0 1",
        "r3k2r/8/8/8/8/8/8/R3K2R b Kq - 12 34",
        "rnbqkbnr/ppp1pppp/8/3pP3/8/8/PPPP1PPP/RNBQKBNR w Qk d6 0 3",
        "4k3/8/8/8/8/8/8/4K3 b - - 99 150",
    ] {
        assert!(valida_fen(fen));
        let t = desde_fen(fen);
        assert_eq!(get_fen(&t), fen);
    }
}

#[test]
fn make_then_unmake_restores_every_field() {
    for fen in [
        INICIO,
        KIWIPETE,
        "rnbqkbnr/ppp1pppp/8/3pP3/8/8/PPPP1PPP/RNBQKBNR w KQkq d6 0 3",
        "rnbq1k1r/pp1Pbppp/2p5/8/2B5/8/PPP1NnPP/RNBQK2R w KQ - 1 8",
        "r3k2r/8/8/8/8/8/8/R3K2R b KQkq - 12 34",
    ] {
        let mut t = desde_fen(fen);
        let antes = t.clone();
        let moves = generate_moves(&mut t);
        assert!(!moves.is_empty());
        for m in moves {
            make_movim(&mut t, m);
            assert_ne!(t, antes);
            unmake_movim(&mut t, m);
            assert_eq!(t, antes);
        }
    }
}

#[test]
fn fools_mate_is_checkmate() {
    let mut t = reset();
    juega(&mut t, &["f2f3", "e7e5", "g2g4"]);
    let r = mueve_algebra(&mut t, ("d8", "h4", ""));
    assert_eq!(r.0, "Qh4#");
    assert_eq!(r.1, "d8h4");
    assert_eq!(r.2, "b");
    assert_eq!(r.3, "q");
    assert_eq!(r.4, "O");
    assert!(rey_en_jaque(&mut t));
    assert!(rey_en_mate(&mut t));
    assert!(!rey_ahogado(&mut t));
    assert!(generate_moves(&mut t).is_empty());
    assert!(jugadas_posibles(&mut t).is_empty());
    assert!(game_over(&mut t));
}

#[test]
fn en_passant_takes_the_pawn_that_passed() {
    let mut t = reset();
    juega(&mut t, &["e2e4", "a7a6", "e4e5", "d7d5"]);
    assert_eq!(t.en_passant, 83);
    assert!(jugadas_posibles(&mut t).contains(&"e5d6".to_string()));
    let r = mueve_algebra(&mut t, ("e5", "d6", ""));
    assert_eq!(r.0, "exd6 e.p.");
    assert_eq!(r.4, "E");
    assert_eq!(t.board_array[83], 6);
    assert_eq!(t.board_array[67], 0);
    assert_eq!(t.board_array[68], 0);
    assert_eq!(get_fen(&t), "rnbqkbnr/1pp1pppp/p2P4/8/8/8/PPPP1PPP/RNBQKBNR b KQkq - 0 3");
    let last = t.history.last().unwrap().mov;
    assert_eq!(last.move_type, EN_PASSANT);
    assert_eq!(last.capture, -6);
}

#[test]
fn en_passant_is_offered_for_one_move_only() {
    let mut t = reset();
    juega(&mut t, &["e2e4", "a7a6", "e4e5", "d7d5", "h2h3", "h7h6"]);
    assert_eq!(t.en_passant, -1);
    assert!(!jugadas_posibles(&mut t).contains(&"e5d6".to_string()));
}

#[test]
fn a_rook_leaving_its_corner_loses_the_right_of_its_wing() {
    let mut t = desde_fen("r3k2r/8/8/8/8/8/8/R3K2R w KQkq - 0 1");
    juega(&mut t, &["h1h2"]);
    assert_eq!(t.white_castle, CASTLE_LONG);
    assert_eq!(t.black_castle, CASTLE_BOTH);
    juega(&mut t, &["a8a7"]);
    assert_eq!(t.white_castle, CASTLE_LONG);
    assert_eq!(t.black_castle, CASTLE_SHORT);
    juega(&mut t, &["h2h1", "a7a8"]);
    assert_eq!(t.white_castle, CASTLE_LONG);
    assert_eq!(t.black_castle, CASTLE_SHORT);
}

#[test]
fn a_rook_captured_in_its_corner_loses_the_right_of_its_wing() {
    let mut t = desde_fen("r3k2r/8/8/8/8/8/8/R3K2R w KQkq - 0 1");
    juega(&mut t, &["a1a8"]);
    assert_eq!(t.white_castle, CASTLE_SHORT);
    assert_eq!(t.black_castle, CASTLE_SHORT);
}

#[test]
fn a_king_that_moves_loses_both_rights() {
    let mut t = desde_fen("r3k2r/8/8/8/8/8/8/R3K2R w KQkq - 0 1");
    juega(&mut t, &["e1e2"]);
    assert_eq!(t.white_castle, CASTLE_NONE);
    assert_eq!(t.black_castle, CASTLE_BOTH);
    juega(&mut t, &["e8g8"]);
    assert_eq!(t.black_castle, CASTLE_NONE);
    assert_eq!(t.history.last().unwrap().mov.move_type, SHORT_CASTLE);
    assert_eq!(get_fen(&t), "r4rk1/8/8/8/8/8/4K3/R6R w - - 2 2");
}

#[test]
fn castling_through_an_attacked_square_is_not_legal() {
    let mut t = desde_fen("4k3/8/8/8/8/5r2/8/R3K2R w KQ - 0 1");
    let moves = jugadas_posibles(&mut t);
    assert!(!moves.contains(&"e1g1".to_string()));
    assert!(moves.contains(&"e1c1".to_string()));
    let mut t = desde_fen("4k3/8/8/8/8/4r3/8/R3K2R w KQ - 0 1");
    let moves = jugadas_posibles(&mut t);
    assert!(!moves.contains(&"e1g1".to_string()));
    assert!(!moves.contains(&"e1c1".to_string()));
}

#[test]
fn threefold_repetition_after_knight_shuffles() {
    let mut t = reset();
    assert!(!repeticion_triple(&mut t));
    let vuelta = ["g1f3", "g8f6", "f3g1", "f6g8"];
    juega(&mut t, &vuelta);
    assert!(!repeticion_triple(&mut t));
    juega(&mut t, &vuelta);
    assert!(!repeticion_triple(&mut t));
    juega(&mut t, &["g1f3", "g8f6", "f3g1"]);
    assert!(repeticion_triple(&mut t));
    assert!(game_over(&mut t));
}

#[test]
fn fifty_move_rule_ends_the_game_at_a_hundred_halfmoves() {
    let mut t = desde_fen("4k3/8/8/8/8/8/4P3/R3K3 w - - 99 80");
    assert!(!game_over(&mut t));
    juega(&mut t, &["a1a2"]);
    assert_eq!(t.moves_fifty, 100);
    assert!(game_over(&mut t));
    let mut t = desde_fen("4k3/8/8/8/8/8/4P3/R3K3 w - - 99 80");
    juega(&mut t, &["e2e3"]);
    assert_eq!(t.moves_fifty, 0);
    assert!(!game_over(&mut t));
}

#[test]
fn counters_follow_the_moves() {
    let mut t = reset();
    juega(&mut t, &["g1f3"]);
    assert_eq!((t.moves_fifty, t.moves_full, t.to_move), (1, 1, -1));
    juega(&mut t, &["g8f6"]);
    assert_eq!((t.moves_fifty, t.moves_full, t.to_move), (2, 2, 1));
    juega(&mut t, &["e2e4"]);
    assert_eq!((t.moves_fifty, t.moves_full, t.en_passant), (0, 2, 36));
    juega(&mut t, &["f6e4"]);
    assert_eq!((t.moves_fifty, t.moves_full, t.en_passant), (0, 3, -1));
}

#[test]
fn stalemate_is_no_checkmate() {
    let mut t = desde_fen("7k/5Q2/6K1/8/8/8/8/8 b - - 0 1");
    assert!(rey_ahogado(&mut t));
    assert!(!rey_en_mate(&mut t));
    assert!(!rey_en_jaque(&mut t));
    assert!(game_over(&mut t));
}

#[test]
fn a_side_without_a_king_is_not_in_check_and_keeps_all_its_moves() {
    let mut t = desde_fen("8/8/8/8/8/8/r7/R7 w - - 0 1");
    assert!(!rey_en_jaque(&mut t));
    assert_eq!(generate_moves(&mut t).len(), 8);
}

#[test]
fn insufficient_material() {
    let casos = [
        ("4k3/8/8/8/8/8/8/4K3 w - - 0 1", true),
        ("4k3/8/8/8/8/8/8/3BK3 w - - 0 1", true),
        ("4k3/8/8/8/8/8/8/3NK3 w - - 0 1", true),
        ("4k3/8/8/8/8/8/8/3QK3 w - - 0 1", false),
        ("4k3/8/8/8/8/8/8/2NNK3 w - - 0 1", false),
        ("2b1k3/8/8/8/8/8/8/3BK3 w - - 0 1", true),
        ("3bk3/8/8/8/8/8/8/3BK3 w - - 0 1", false),
        ("2b1k3/8/8/8/8/8/8/1B2K3 w - - 0 1", true),
        ("4k3/8/8/8/8/8/1B6/B3K3 w - - 0 1", true),
        ("4k3/8/8/8/8/8/8/BB2K3 w - - 0 1", false),
        ("4k3/8/8/8/8/8/P7/4K3 w - - 0 1", false),
        (INICIO, false),
    ];
    for (fen, esperado) in casos {
        let mut t = desde_fen(fen);
        assert_eq!(material_insuficiente(&mut t), esperado, "{}", fen);
    }
}

#[test]
fn attacked_squares() {
    let t = reset();
    // White is to move: its pieces attack the third rank, not the sixth.
    for sq in 32..40 {
        assert!(es_atacada(&t, sq));
    }
    for sq in 80..88 {
        assert!(!es_atacada(&t, sq));
    }
    // A rook's line ends at the first piece on it.
    let t = desde_fen("4k3/8/8/8/8/8/8/R2BK3 w - - 0 1");
    assert!(es_atacada(&t, 1));
    assert!(es_atacada(&t, 2));
    assert!(es_atacada(&t, 3));
    assert!(es_atacada(&t, 112));
    assert!(!es_atacada(&t, 6));
    // Pawns attack diagonally ahead only.
    let t = desde_fen("4k3/8/8/8/3p4/8/8/4K3 b - - 0 1");
    assert!(es_atacada(&t, 34));
    assert!(es_atacada(&t, 36));
    assert!(!es_atacada(&t, 35));
    assert!(!es_atacada(&t, 66));
}

#[test]
fn undo_takes_moves_back_in_turn() {
    let mut t = reset();
    assert!(!mueve_atras(&mut t));
    assert_eq!(t, reset());
    juega(&mut t, &["e2e4", "e7e5", "g1f3"]);
    let tras_dos = "rnbqkbnr/pppp1ppp/8/4p3/4P3/8/PPPP1PPP/RNBQKBNR w KQkq e6 0 2";
    assert!(mueve_atras(&mut t));
    assert_eq!(get_fen(&t), tras_dos);
    assert_eq!(t.history.len(), 2);
    assert!(mueve_atras(&mut t));
    assert!(mueve_atras(&mut t));
    assert_eq!(t, reset());
    assert!(!mueve_atras(&mut t));
}

#[test]
fn a_refused_move_leaves_the_board_alone() {
    let mut t = reset();
    for j in [("e2", "e5", ""), ("e7", "e5", ""), ("e9", "e4", ""), ("e2", "", ""), ("a1", "a1", "")] {
        let r = mueve_algebra(&mut t, j);
        assert_eq!(r, ("None".into(), "None".into(), "None".into(), "None".into(), "None".into()));
        assert_eq!(t, reset());
    }
    for san in ["Ke2", "e5", "Nf6", "O-O", "xyz", "", "e4e5e6"] {
        let r = mueve_san(&mut t, san);
        assert_eq!(r.0, "None");
        assert_eq!(t, reset());
    }
}

#[test]
fn promotion_by_coordinates_needs_its_letter() {
    let fen = "4k3/P7/8/8/8/8/8/4K3 w - - 0 1";
    let mut t = desde_fen(fen);
    assert_eq!(mueve_algebra(&mut t, ("a7", "a8", "")).0, "None");
    assert_eq!(mueve_algebra(&mut t, ("a7", "a8", "K")).0, "None");
    let r = mueve_algebra(&mut t, ("a7", "a8", "Q"));
    assert_eq!(r.0, "a8=Q+");
    assert_eq!(r.1, "a7a8q");
    assert_eq!(r.4, "Q");
    assert_eq!(t.board_array[112], 2);
    assert_eq!(t.history.last().unwrap().mov.move_type, PROMOTION_QUEEN);
    let mut t = desde_fen(fen);
    let r = mueve_algebra(&mut t, ("a7", "a8", "N"));
    assert_eq!((r.0.as_str(), r.1.as_str(), r.4.as_str()), ("a8=N", "a7a8n", "N"));
    assert_eq!(t.board_array[112], 5);
    // A letter with a move that is no pawn's is not looked at.
    let mut t = desde_fen("4k3/8/8/8/8/8/8/R3K3 w - - 0 1");
    let r = mueve_algebra(&mut t, ("a1", "a8", "Q"));
    assert_eq!(r.0, "Ra8+");
    assert_eq!(t.history.last().unwrap().mov.move_type, ORDINARY_MOVE);
}
