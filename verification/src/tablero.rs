//! The board state, the moves that change it, and their mathematical model.

use vstd::prelude::*;
use crate::defs::{
    on_board, rank_of, B_KING, B_PAWN, B_ROOK, CASTLE_NONE, W_KING, W_PAWN, W_ROOK,
};

verus! {

/// A move, with what is needed to take it back.
#[derive(Copy, Clone, Debug, PartialEq, Eq)]
pub struct Movim {
    /// The piece that moves.
    pub piece_moving: i16,
    /// The square it leaves.
    pub from_index: usize,
    /// The square it reaches.
    pub to_index: usize,
    /// The piece it captures, 0 for none.
    pub capture: i16,
    /// The kind of move: ordinary, a castle, en passant, or a promotion.
    pub move_type: i16,
    /// The position before the move: the en-passant square (-1 for none),
    /// white's castling rights, black's castling rights, the halfmove clock.
    pub prev_pos: [i16; 4],
}

impl Movim {
    /// A move from its parts.
    pub fn init(
        pieza: i16,
        desde: usize,
        hasta: usize,
        captura: i16,
        tipo_movim: i16,
        pos_previa: [i16; 4],
    ) -> (m: Movim)
        ensures
            m.piece_moving == pieza,
            m.from_index == desde,
            m.to_index == hasta,
            m.capture == captura,
            m.move_type == tipo_movim,
            m.prev_pos == pos_previa,
    {
        Movim {
            piece_moving: pieza,
            from_index: desde,
            to_index: hasta,
            capture: captura,
            move_type: tipo_movim,
            prev_pos: pos_previa,
        }
    }

    /// The move that stands for "no move": its piece is 0.
    pub open spec fn nulo() -> Movim {
        Movim {
            piece_moving: 0,
            from_index: 0,
            to_index: 0,
            capture: 0,
            move_type: 0,
            prev_pos: [0, 0, 0, 0],
        }
    }

    /// Builds the move that stands for "no move".
    pub fn ninguno() -> (m: Movim)
        ensures
            m == Movim::nulo(),
    {
        Movim::init(0, 0, 0, 0, 0, [0, 0, 0, 0])
    }
}

/// One entry of the game's log: the position before a move, without its
/// counters, and the move made from it.
#[derive(Clone, Debug, PartialEq, Eq)]
pub struct Historia {
    /// The position the move was made from, as text without counters.
    pub posicion: String,
    /// The move.
    pub mov: Movim,
}

/// A position, as mathematics sees it.
pub struct Posicion {
    /// The 128 slots of the 0x88 grid.
    pub squares: Seq<i16>,
    /// 1 when white is to move, -1 when black is.
    pub to_move: int,
    /// The square a pawn just passed over, or -1.
    pub en_passant: int,
    /// White's castling rights: none, short, long or both.
    pub white_castle: int,
    /// Black's castling rights.
    pub black_castle: int,
    /// Moves since the last pawn move or capture.
    pub moves_fifty: int,
    /// Number of the move, counted up after each move of black.
    pub moves_full: int,
}

impl Posicion {
    /// The piece on a square.
    pub open spec fn at(self, sq: int) -> int {
        self.squares[sq] as int
    }

    /// The board part of the position holds what it can: 128 slots with
    /// piece codes on the squares of the board and nothing beside them, a
    /// side to move, castling rights, and an en-passant square on the third
    /// or sixth rank if any.
    pub open spec fn sound(self) -> bool {
        &&& self.squares.len() == 128
        &&& forall|sq: int|
            0 <= sq < 128 ==> -6 <= #[trigger] self.squares[sq] <= 6 && (!on_board(sq)
                ==> self.squares[sq] == 0)
        &&& (self.to_move == 1 || self.to_move == -1)
        &&& (self.en_passant == -1 || (on_board(self.en_passant) && (rank_of(self.en_passant) == 2
            || rank_of(self.en_passant) == 5)))
        &&& 0 <= self.white_castle <= 3
        &&& 0 <= self.black_castle <= 3
    }

    /// A sound position whose counters can still be counted up.
    pub open spec fn valid(self) -> bool {
        &&& self.sound()
        &&& 0 <= self.moves_fifty < i16::MAX
        &&& 0 <= self.moves_full < i16::MAX
    }

    /// The same position with the other side to move.
    pub open spec fn flipped(self) -> Posicion {
        Posicion { to_move: -self.to_move, ..self }
    }

    /// Whether `side` (1 or -1) may still castle short.
    pub open spec fn may_castle_short(self, side: int) -> bool {
        if side == 1 {
            self.white_castle == 1 || self.white_castle == 3
        } else {
            self.black_castle == 1 || self.black_castle == 3
        }
    }

    /// Whether `side` (1 or -1) may still castle long.
    pub open spec fn may_castle_long(self, side: int) -> bool {
        if side == 1 {
            self.white_castle == 2 || self.white_castle == 3
        } else {
            self.black_castle == 2 || self.black_castle == 3
        }
    }

    /// The rights agree with the pieces: a side that may castle has its king
    /// and the rook of that wing at home, and behind an en-passant square
    /// stands the pawn that passed it.
    pub open spec fn coherent(self) -> bool {
        &&& self.white_castle != CASTLE_NONE ==> self.at(4) == W_KING
        &&& self.may_castle_short(1) ==> self.at(7) == W_ROOK
        &&& self.may_castle_long(1) ==> self.at(0) == W_ROOK
        &&& self.black_castle != CASTLE_NONE ==> self.at(116) == B_KING
        &&& self.may_castle_short(-1) ==> self.at(119) == B_ROOK
        &&& self.may_castle_long(-1) ==> self.at(112) == B_ROOK
        &&& self.en_passant != -1 ==> self.at(self.en_passant) == 0 && if self.to_move == 1 {
            rank_of(self.en_passant) == 5 && self.at(self.en_passant - 16) == B_PAWN
        } else {
            rank_of(self.en_passant) == 2 && self.at(self.en_passant + 16) == W_PAWN
        }
    }

    /// A position on which a game can go on.
    pub open spec fn wf(self) -> bool {
        self.valid() && self.coherent()
    }
}

/// The board and the state of the game.
#[derive(Clone, Debug, PartialEq, Eq)]
pub struct Tablero {
    /// The 0x88 board.
    pub board_array: [i16; 128],
    /// 1 when white is to move, -1 when black is.
    pub to_move: i16,
    /// The en-passant square, or -1.
    pub en_passant: i16,
    /// White's castling rights: none, short, long or both.
    pub white_castle: i16,
    /// Black's castling rights.
    pub black_castle: i16,
    /// Moves since the last pawn move or capture.
    pub moves_fifty: i16,
    /// Number of the move.
    pub moves_full: i16,
    /// The moves made so far, each with the position it was made from.
    pub history: Vec<Historia>,
}

impl View for Tablero {
    type V = Posicion;

    open spec fn view(&self) -> Posicion {
        Posicion {
            squares: self.board_array@,
            to_move: self.to_move as int,
            en_passant: self.en_passant as int,
            white_castle: self.white_castle as int,
            black_castle: self.black_castle as int,
            moves_fifty: self.moves_fifty as int,
            moves_full: self.moves_full as int,
        }
    }
}

impl Tablero {
    /// The empty board before any setup.
    pub open spec fn vacio() -> Posicion {
        Posicion {
            squares: Seq::new(128, |i: int| 0i16),
            to_move: 1,
            en_passant: -1,
            white_castle: 0,
            black_castle: 0,
            moves_fifty: 0,
            moves_full: 0,
        }
    }

    /// An empty board with white to move, no rights and an empty log.
    pub fn init() -> (t: Tablero)
        ensures
            t@ == Tablero::vacio(),
            t.history@.len() == 0,
    {
        let t = Tablero {
            board_array: [0; 128],
            to_move: 1,
            en_passant: -1,
            white_castle: CASTLE_NONE,
            black_castle: CASTLE_NONE,
            moves_fifty: 0,
            moves_full: 0,
            history: Vec::new(),
        };
        assert(t.board_array@ =~= Seq::new(128, |i: int| 0i16));
        t
    }

    /// Puts a piece on a square.
    pub fn modif_board(&mut self, indice: usize, pieza: i16)
        requires
            indice < 128,
        ensures
            final(self)@ == (Posicion {
                squares: old(self)@.squares.update(indice as int, pieza),
                ..old(self)@
            }),
            final(self).history == old(self).history,
    {
        self.board_array[indice] = pieza;
    }

    /// Sets the side to move.
    pub fn modif_bando(&mut self, bando: i16)
        ensures
            final(self)@ == (Posicion { to_move: bando as int, ..old(self)@ }),
            final(self).history == old(self).history,
    {
        self.to_move = bando;
    }

    /// Sets white's castling rights.
    pub fn modif_enroque_blanco(&mut self, estatus: i16)
        ensures
            final(self)@ == (Posicion { white_castle: estatus as int, ..old(self)@ }),
            final(self).history == old(self).history,
    {
        self.white_castle = estatus;
    }

    /// Sets black's castling rights.
    pub fn modif_enroque_negro(&mut self, estatus: i16)
        ensures
            final(self)@ == (Posicion { black_castle: estatus as int, ..old(self)@ }),
            final(self).history == old(self).history,
    {
        self.black_castle = estatus;
    }

    /// Sets the en-passant square.
    pub fn modif_paso(&mut self, estatus: i16)
        ensures
            final(self)@ == (Posicion { en_passant: estatus as int, ..old(self)@ }),
            final(self).history == old(self).history,
    {
        self.en_passant = estatus;
    }

    /// Sets the halfmove clock.
    pub fn modif_medias(&mut self, num: i16)
        ensures
            final(self)@ == (Posicion { moves_fifty: num as int, ..old(self)@ }),
            final(self).history == old(self).history,
    {
        self.moves_fifty = num;
    }

    /// Sets the move number.
    pub fn modif_todas(&mut self, num: i16)
        ensures
            final(self)@ == (Posicion { moves_full: num as int, ..old(self)@ }),
            final(self).history == old(self).history,
    {
        self.moves_full = num;
    }

    /// Writes an entry at the end of the log.
    pub fn anade_historico(&mut self, pos: Historia)
        ensures
            final(self)@ == old(self)@,
            final(self).history@ == old(self).history@.push(pos),
    {
        self.history.push(pos);
    }

    /// Takes the last entry off the log. On an empty log the entry that
    /// comes back holds the move that stands for "no move".
    pub fn quita_historico(&mut self) -> (h: Historia)
        ensures
            final(self)@ == old(self)@,
            old(self).history@.len() > 0 ==> h == old(self).history@.last(),
            old(self).history@.len() > 0 ==> final(self).history@ == old(
                self).history@.drop_last(),
            old(self).history@.len() == 0 ==> h.mov == Movim::nulo() && h.posicion@.len() == 0
                && final(self).history@.len() == 0,
    {
        let quitado = self.history.pop();
        match quitado {
            Some(quitado) => quitado,
            None => Historia { posicion: String::new(), mov: Movim::ninguno() },
        }
    }
}

/// Whether the board part of the position is sound.
fn tablero_sano(board: &Tablero) -> (b: bool)
    ensures
        b == board@.sound(),
{
    let mut sq: usize = 0;
    while sq < 128
        invariant
            0 <= sq <= 128,
            forall|s: int|
                0 <= s < sq ==> -6 <= #[trigger] board@.squares[s] <= 6 && (!on_board(s)
                    ==> board@.squares[s] == 0),
        decreases 128 - sq,
    {
        let pieza = board.board_array[sq];
        if pieza < -6 || pieza > 6 || (sq % 16 >= 8 && pieza != 0) {
            return false;
        }
        sq += 1;
    }
    let paso = board.en_passant;
    (board.to_move == 1 || board.to_move == -1) && (paso == -1 || (0 <= paso && paso < 128 && paso
        % 16 < 8 && (paso / 16 == 2 || paso / 16 == 5))) && 0 <= board.white_castle
        && board.white_castle <= 3 && 0 <= board.black_castle && board.black_castle <= 3
}

/// Whether the rights of the position agree with its pieces.
fn tablero_coherente(board: &Tablero) -> (b: bool)
    requires
        board@.sound(),
    ensures
        b == board@.coherent(),
{
    let blanco = board.white_castle;
    let negro = board.black_castle;
    let paso = board.en_passant;
    let enroques = (blanco == CASTLE_NONE || board.board_array[4] == W_KING) && (!(blanco == 1
        || blanco == 3) || board.board_array[7] == W_ROOK) && (!(blanco == 2 || blanco == 3)
        || board.board_array[0] == W_ROOK) && (negro == CASTLE_NONE || board.board_array[116]
        == B_KING) && (!(negro == 1 || negro == 3) || board.board_array[119] == B_ROOK) && (!(
    negro == 2 || negro == 3) || board.board_array[112] == B_ROOK);
    let al_paso = paso == -1 || (board.board_array[paso as usize] == 0 && if board.to_move == 1 {
        paso / 16 == 5 && board.board_array[(paso - 16) as usize] == B_PAWN
    } else {
        paso / 16 == 2 && board.board_array[(paso + 16) as usize] == W_PAWN
    });
    enroques && al_paso
}

/// Whether a game can go on from the board: the position is sound, its
/// counters have room, and its rights agree with its pieces.
pub fn bien_formado(board: &Tablero) -> (b: bool)
    ensures
        b == board@.wf(),
{
    tablero_sano(board) && 0 <= board.moves_fifty && board.moves_fifty < i16::MAX && 0
        <= board.moves_full && board.moves_full < i16::MAX && tablero_coherente(board)
}

} // verus!
