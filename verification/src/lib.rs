//! A chess rules engine on a 0x88 board: positions and their FEN text, move
//! generation and legality, making and taking back moves, coordinate and
//! standard algebraic notation, and the ends of a game.

pub mod ataque;
pub mod defs;
pub mod estado;
pub mod fen;
pub mod genera;
pub mod jugada;
pub mod notacion;
pub mod partida;
pub mod relectura;
pub mod san;
pub mod tablero;
pub mod texto;
pub mod vista;
pub mod vuelta;

pub use ataque::{busca_rey, es_atacada, traverse_delta};
pub use defs::{fn_columna, fn_fila, CasillaVal, Cols, Filas};
pub use estado::{
    game_over, material_insuficiente, repeticion_triple, rey_ahogado, rey_en_jaque, rey_en_mate,
};
pub use fen::{carga_fen, fen_mutilada, get_fen, set_fen, valida_fen, ErrorFen};
pub use genera::{
    filter_moves, gen_castling, gen_moves, gen_pawn, generate_moves, generate_pseudo_moves,
};
pub use jugada::{encaja, make_movim, unmake_movim};
pub use notacion::{crea_algebra, crea_flags, crea_san, crea_uci, pieza_char, stripped_san};
pub use partida::{
    ascii, get_pieza, jugadas_posibles, mueve_algebra, mueve_atras, mueve_san, pgn, reset,
    setup_inicio, tablero_grafico,
};
pub use san::{desambigua, move_from_san};
pub use tablero::{bien_formado, Historia, Movim, Tablero};
pub use texto::{texto_a_int, ErrorNumero};
