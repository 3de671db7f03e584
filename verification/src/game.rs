//! The position and the game: side to move, castling rights, en-passant
//! target, move clocks, applying a move, and the undo stack.
//!
//! The stored board is relative: after every move it is mirrored so that
//! the side to move always sits on the low ranks. The en-passant target is
//! kept in that frame too.

use crate::bits::bit64;
use crate::bits::popcount;
use crate::bits::popcount64;
use crate::board::bb_index;
use crate::board::lemma_flip_disjoint;
use crate::board::lemma_occupied_bit;
use crate::board::lemma_piece_at_bit;
use crate::board::lemma_xor_bit_bits;
use crate::board::lemma_xor_keeps_disjoint;
use crate::board::Board;
use crate::board::Pieces;
use crate::board::Player;
use crate::movegen::attacks_down_of;
use crate::movegen::attacks_of;
use crate::movegen::move_wf_board;
use crate::movegen::Move;
use crate::movegen::MoveGen;
use vstd::prelude::*;
use vstd::string::StrSliceExecFns;
use vstd::string::StringExecFns;

verus! {

/// White may castle kingside.
pub const CASTLE_WHITE_KINGSIDE: u8 = 0b1 << 3;

/// White may castle queenside.
pub const CASTLE_WHITE_QUEENSIDE: u8 = 0b1 << 2;

/// Black may castle kingside.
pub const CASTLE_BLACK_KINGSIDE: u8 = 0b1 << 1;

/// Black may castle queenside.
pub const CASTLE_BLACK_QUEENSIDE: u8 = 0b1 << 0;

/// The kingside castling flag of one side.
pub open spec fn kingside_flag(pl: Player) -> u8 {
    match pl {
        Player::White => CASTLE_WHITE_KINGSIDE,
        Player::Black => CASTLE_BLACK_KINGSIDE,
    }
}

/// The queenside castling flag of one side.
pub open spec fn queenside_flag(pl: Player) -> u8 {
    match pl {
        Player::White => CASTLE_WHITE_QUEENSIDE,
        Player::Black => CASTLE_BLACK_QUEENSIDE,
    }
}

/// The position: relative board, side to move, castling rights as a
/// four-flag mask, en-passant target in the relative frame, and the two
/// move clocks.
#[derive(Debug, Copy, Clone, PartialEq, Eq)]
pub struct GameState {
    pub relative_board: Board,
    pub player: Player,
    pub castling: u8,
    pub ep_square: Option<u32>,
    pub halfmove_clock: u32,
    pub fullmove_clock: u32,
}

/// A well-formed position: the twelve bitboards are disjoint and the
/// en-passant target, if any, is a square index.
pub open spec fn wf_state(s: GameState) -> bool {
    &&& s.relative_board.disjoint()
    &&& (s.ep_square matches Some(e) ==> e < 64)
}

/// Whether `pl`'s king stands on a square its opponent attacks. On the
/// relative board the side to move pushes its pawns toward higher ranks,
/// so the attack set of the opponent of the side to move runs downward.
pub open spec fn in_check_spec(s: GameState, pl: Player) -> bool {
    if pl == s.player {
        attacks_down_of(s.relative_board, pl.spec_other()) & s.relative_board.spec_bb(
            pl,
            Pieces::King,
        ) != 0
    } else {
        attacks_of(s.relative_board, pl.spec_other()) & s.relative_board.spec_bb(pl, Pieces::King)
            != 0
    }
}

/// The board after lifting whatever stands on `to`, if anything.
pub open spec fn apply_capture(b: Board, to: u64) -> Board {
    match b.spec_piece_at(to) {
        Some((x, y)) => b.spec_xor_bit(x, y, to),
        None => b,
    }
}

/// The board after the move, before the mirror: capture, piece transfer,
/// then the pawn or king special step.
pub open spec fn make_board(s: GameState, m: Move) -> Board {
    let pl = s.player;
    let b0 = apply_capture(s.relative_board, m.to as u64);
    let b1 = b0.spec_xor_bit(pl, m.piece, m.from as u64);
    let b2 = b1.spec_xor_bit(pl, m.piece, m.to as u64);
    match m.piece {
        Pieces::Pawn => match m.promotion {
            Some(p) => b2.spec_xor_bit(pl, Pieces::Pawn, m.to as u64).spec_xor_bit(
                pl,
                p,
                m.to as u64,
            ),
            None => if m.ep {
                b2.spec_xor_bit(pl.spec_other(), Pieces::Pawn, (m.to - 8) as u64)
            } else {
                b2
            },
        },
        Pieces::King => if m.from == 3 && m.to == 1 {
            b2.spec_xor_bit(pl, Pieces::Rook, 0).spec_xor_bit(pl, Pieces::Rook, 2)
        } else if m.from == 3 && m.to == 5 {
            b2.spec_xor_bit(pl, Pieces::Rook, 7).spec_xor_bit(pl, Pieces::Rook, 4)
        } else {
            b2
        },
        _ => b2,
    }
}

/// The castling mask after the move: capturing a rook on the opponent's
/// home corner takes that right; moving the king takes both own rights;
/// moving a rook off its home corner takes the matching right.
pub open spec fn make_castling(s: GameState, m: Move) -> u8 {
    let pl = s.player;
    let opp = pl.spec_other();
    let c0 = if s.relative_board.spec_piece_at(m.to as u64) == Some((opp, Pieces::Rook)) && m.to
        == 56 {
        s.castling & !kingside_flag(opp)
    } else if s.relative_board.spec_piece_at(m.to as u64) == Some((opp, Pieces::Rook)) && m.to
        == 63 {
        s.castling & !queenside_flag(opp)
    } else {
        s.castling
    };
    match m.piece {
        Pieces::King => c0 & !(kingside_flag(pl) | queenside_flag(pl)),
        Pieces::Rook => if m.from == 0 {
            c0 & !kingside_flag(pl)
        } else if m.from == 7 {
            c0 & !queenside_flag(pl)
        } else {
            c0
        },
        _ => c0,
    }
}

/// The en-passant target after the move, in the next mover's frame: set
/// by a plain double pawn push to the skipped square, cleared otherwise.
pub open spec fn make_ep(s: GameState, m: Move) -> Option<u32> {
    if m.piece == Pieces::Pawn && m.promotion is None && !m.ep && m.to >= 16 && m.to - 16 == m.from {
        Some(((m.to - 8) as u32) ^ 56)
    } else {
        None
    }
}

/// Whether the move resets the halfmove clock: a capture or any pawn move.
pub open spec fn resets_clock(s: GameState, m: Move) -> bool {
    s.relative_board.spec_piece_at(m.to as u64) is Some || m.piece == Pieces::Pawn
}

/// Adds one without wrapping.
pub open spec fn bump(c: u32) -> u32 {
    if c == u32::MAX {
        c
    } else {
        (c + 1) as u32
    }
}

/// The position after the move: the moved board mirrored for the next
/// side, rights and clocks updated, the turn passed.
pub open spec fn make_spec(s: GameState, m: Move) -> GameState {
    GameState {
        relative_board: make_board(s, m).spec_flip(),
        player: s.player.spec_other(),
        castling: make_castling(s, m),
        ep_square: make_ep(s, m),
        halfmove_clock: if resets_clock(s, m) {
            0
        } else {
            bump(s.halfmove_clock)
        },
        fullmove_clock: if s.player == Player::Black {
            bump(s.fullmove_clock)
        } else {
            s.fullmove_clock
        },
    }
}

/// Applying a well-formed move to a well-formed position keeps the twelve
/// bitboards disjoint.
pub proof fn lemma_make_board_disjoint(s: GameState, m: Move)
    requires
        wf_state(s),
        move_wf_board(s.relative_board, s.player, m),
    ensures
        make_board(s, m).disjoint(),
{
    let b = s.relative_board;
    let pl = s.player;
    let from = m.from as u64;
    let to = m.to as u64;
    lemma_piece_at_bit(b, to);
    let b0 = apply_capture(b, to);
    if b.spec_piece_at(to) is Some {
        let (x, y) = b.spec_piece_at(to)->0;
        lemma_xor_bit_bits(b, x, y, to);
        lemma_xor_keeps_disjoint(b, x, y, to);
    }
    assert(b0.disjoint());
    assert(forall|j: int| 0 <= j < 12 ==> !bit64(#[trigger] b0.nth_bb(j), to));
    assert(forall|j: int, t: u64|
        0 <= j < 12 && t < 64 && t != to ==> #[trigger] bit64(b0.nth_bb(j), t) == bit64(
            b.nth_bb(j),
            t,
        ));

    let b1 = b0.spec_xor_bit(pl, m.piece, from);
    lemma_xor_bit_bits(b0, pl, m.piece, from);
    if from != to {
        assert(bit64(b0.spec_bb(pl, m.piece), from));
    }
    lemma_xor_keeps_disjoint(b0, pl, m.piece, from);
    assert(b1.disjoint());

    let b2 = b1.spec_xor_bit(pl, m.piece, to);
    lemma_xor_bit_bits(b1, pl, m.piece, to);
    if from == to {
        assert(bit64(b1.spec_bb(pl, m.piece), to));
    } else {
        assert(forall|j: int| 0 <= j < 12 ==> !bit64(#[trigger] b1.nth_bb(j), to));
    }
    lemma_xor_keeps_disjoint(b1, pl, m.piece, to);
    assert(b2.disjoint());
    lemma_xor_bit_bits(b2, pl, m.piece, to);

    match m.piece {
        Pieces::Pawn => {
            if m.promotion is Some {
                let p = m.promotion->0;
                let b3 = b2.spec_xor_bit(pl, Pieces::Pawn, to);
                lemma_xor_bit_bits(b2, pl, Pieces::Pawn, to);
                assert(bit64(b2.spec_bb(pl, Pieces::Pawn), to));
                lemma_xor_keeps_disjoint(b2, pl, Pieces::Pawn, to);
                assert(forall|j: int| 0 <= j < 12 ==> !bit64(#[trigger] b3.nth_bb(j), to));
                lemma_xor_bit_bits(b3, pl, Pieces::Pawn, to);
                lemma_xor_keeps_disjoint(b3, pl, p, to);
            } else if m.ep {
                let cap = (m.to - 8) as u64;
                let opp = pl.spec_other();
                assert(bit64(b.spec_bb(opp, Pieces::Pawn), cap));
                assert(bb_index(opp, Pieces::Pawn) != bb_index(pl, m.piece));
                assert(bit64(b2.spec_bb(opp, Pieces::Pawn), cap));
                lemma_xor_keeps_disjoint(b2, opp, Pieces::Pawn, cap);
            }
        },
        Pieces::King => {
            if m.from == 3 && m.to == 1 {
                lemma_occupied_bit(b, 2);
                assert(bit64(b.spec_bb(pl, Pieces::Rook), 0));
                assert(bit64(b2.spec_bb(pl, Pieces::Rook), 0));
                let b3 = b2.spec_xor_bit(pl, Pieces::Rook, 0);
                lemma_xor_bit_bits(b2, pl, Pieces::Rook, 0);
                lemma_xor_keeps_disjoint(b2, pl, Pieces::Rook, 0);
                assert(forall|j: int| 0 <= j < 12 ==> !bit64(#[trigger] b3.nth_bb(j), 2));
                lemma_xor_bit_bits(b3, pl, Pieces::Rook, 0);
                lemma_xor_keeps_disjoint(b3, pl, Pieces::Rook, 2);
            } else if m.from == 3 && m.to == 5 {
                lemma_occupied_bit(b, 4);
                assert(bit64(b.spec_bb(pl, Pieces::Rook), 7));
                assert(bit64(b2.spec_bb(pl, Pieces::Rook), 7));
                let b3 = b2.spec_xor_bit(pl, Pieces::Rook, 7);
                lemma_xor_bit_bits(b2, pl, Pieces::Rook, 7);
                lemma_xor_keeps_disjoint(b2, pl, Pieces::Rook, 7);
                assert(forall|j: int| 0 <= j < 12 ==> !bit64(#[trigger] b3.nth_bb(j), 4));
                lemma_xor_bit_bits(b3, pl, Pieces::Rook, 7);
                lemma_xor_keeps_disjoint(b3, pl, Pieces::Rook, 4);
            }
        },
        _ => {},
    }
}

impl GameState {
    /// The relative board.
    pub fn get_relative_board(&self) -> (r: Board)
        ensures
            r == self.relative_board,
    {
        self.relative_board
    }

    /// The side to move.
    pub fn get_player(&self) -> (r: Player)
        ensures
            r == self.player,
    {
        self.player
    }

    /// The en-passant target, in the relative frame.
    pub fn get_ep(&self) -> (r: Option<u32>)
        ensures
            r == self.ep_square,
    {
        self.ep_square
    }

    /// The castling rights mask.
    pub fn get_castling(&self) -> (r: u8)
        ensures
            r == self.castling,
    {
        self.castling
    }

    /// How many pieces of one kind a side has on the board.
    pub fn count_pieces(&self, player: Player, piece: Pieces) -> (r: u32)
        ensures
            r as nat == popcount64(self.relative_board.spec_bb(player, piece)),
    {
        popcount(self.relative_board.get_pieceboard(player, piece).bitboard)
    }

    /// The square index a coordinate names, from the side to move's seat.
    pub fn algebraic_to_shift(&self, pos: &str) -> (r: Option<u32>)
        ensures
            r == alg_square(pos@, self.player),
            r matches Some(v) ==> v < 64,
    {
        let n = pos.unicode_len();
        if n < 2 {
            return None;
        }
        let c0 = pos.get_char(0);
        let c1 = pos.get_char(1);
        proof {
            assert(alg_square(pos@, self.player) == alg_square(seq![pos@[0], pos@[1]], self.player));
        }
        alg_square_chars(c0, c1, self.player)
    }

    /// The two-character coordinate of a square index, from the side to
    /// move's seat; indices past the board give nothing.
    pub fn shift_to_algebraic(&self, shift: u32) -> (r: Option<String>)
        ensures
            r is Some <==> shift < 64,
            r matches Some(x) ==> x@ == seq![
                file_char_of(shift),
                rank_char_of(shift, self.player),
            ],
    {
        if shift >= 64 {
            return None;
        }
        let file = 7 - (shift % 8);
        let mut rank = shift / 8;
        match self.player {
            Player::Black => {
                rank = 7 - rank;
            },
            Player::White => {},
        }
        let fs: &str = match file {
            0 => "a",
            1 => "b",
            2 => "c",
            3 => "d",
            4 => "e",
            5 => "f",
            6 => "g",
            _ => "h",
        };
        let rs: &str = match rank {
            0 => "1",
            1 => "2",
            2 => "3",
            3 => "4",
            4 => "5",
            5 => "6",
            6 => "7",
            _ => "8",
        };
        proof {
            reveal_strlit("a");
            reveal_strlit("b");
            reveal_strlit("c");
            reveal_strlit("d");
            reveal_strlit("e");
            reveal_strlit("f");
            reveal_strlit("g");
            reveal_strlit("h");
            reveal_strlit("1");
            reveal_strlit("2");
            reveal_strlit("3");
            reveal_strlit("4");
            reveal_strlit("5");
            reveal_strlit("6");
            reveal_strlit("7");
            reveal_strlit("8");
        }
        let mut out = String::from_str(fs);
        out.append(rs);
        proof {
            assert(out@ =~= seq![file_char_of(shift), rank_char_of(shift, self.player)]);
        }
        Some(out)
    }

    /// Reads a six-field FEN string into a position; the stored board is
    /// mirrored when Black is to move, so that the mover sits on the low
    /// ranks.
    pub fn from_fen(fen: &str) -> (r: Result<GameState, &'static str>)
        ensures
            r is Ok <==> parse_fen(fen@) is Some,
            r matches Ok(st) ==> Some(st) == parse_fen(fen@) && wf_state(st),
    {
        let chars = crate::text::chars_of(fen);
        let fields = crate::text::split_fields(chars);
        if fields.len() < 6 {
            return Err("Invalid FEN String. No board configuration found.");
        }
        let board = match Board::from_fen(fen) {
            Ok(b) => b,
            Err(e) => {
                return Err(e);
            },
        };

        let f1 = &fields[1];
        proof {
            assert(f1@ == crate::text::split_spaces(fen@)[1]);
        }
        let player = if f1.len() != 1 {
            return Err("Invalid FEN String. Player must be 'w' or 'b'.");
        } else {
            match f1[0] {
                'w' => Player::White,
                'b' => Player::Black,
                _ => {
                    return Err("Invalid FEN String. Player must be 'w' or 'b'.");
                },
            }
        };

        let f2 = &fields[2];
        proof {
            assert(f2@ == crate::text::split_spaces(fen@)[2]);
        }
        let is_dash = f2.len() == 1 && (match f2[0] {
            '-' => true,
            _ => false,
        });
        let castling = if is_dash {
            0u8
        } else if f2.len() == 0 {
            return Err("Invalid FEN String. Castling rights not specified");
        } else {
            let mut acc: u8 = 0;
            let mut i: usize = 0;
            while i < f2.len()
                invariant
                    f2@ == crate::text::split_spaces(fen@)[2],
                    !(f2@.len() == 1 && f2@[0] == '-'),
                    f2@.len() != 0,
                    i <= f2@.len(),
                    castling_scan(f2@, 0, 0) == castling_scan(f2@, i as int, acc),
                decreases f2@.len() - i,
            {
                match f2[i] {
                    'K' => {
                        acc = acc | CASTLE_WHITE_KINGSIDE;
                    },
                    'Q' => {
                        acc = acc | CASTLE_WHITE_QUEENSIDE;
                    },
                    'k' => {
                        acc = acc | CASTLE_BLACK_KINGSIDE;
                    },
                    'q' => {
                        acc = acc | CASTLE_BLACK_QUEENSIDE;
                    },
                    _ => {
                        return Err("Invalid FEN String. Castling rights not specified");
                    },
                }
                i = i + 1;
            }
            acc
        };

        let f3 = &fields[3];
        proof {
            assert(f3@ == crate::text::split_spaces(fen@)[3]);
        }
        let is_ep_dash = f3.len() == 1 && (match f3[0] {
            '-' => true,
            _ => false,
        });
        let ep_square = if is_ep_dash {
            None
        } else if f3.len() == 2 {
            proof {
                assert(f3@ =~= seq![f3@[0], f3@[1]]);
            }
            match alg_square_chars(f3[0], f3[1], player) {
                Some(v) => Some(v),
                None => {
                    return Err("Invalid FEN String. No en-passant targets provided");
                },
            }
        } else {
            return Err("Invalid FEN String. No en-passant targets provided");
        };

        let f4 = &fields[4];
        proof {
            assert(f4@ == crate::text::split_spaces(fen@)[4]);
        }
        let half_moves = match crate::text::parse_u32_field(f4) {
            Some(v) => v,
            None => {
                return Err("Invalid FEN String. Halfmove clock is not a number");
            },
        };

        let f5 = &fields[5];
        proof {
            assert(f5@ == crate::text::split_spaces(fen@)[5]);
        }
        let full_moves = match crate::text::parse_u32_field(f5) {
            Some(v) => v,
            None => {
                return Err("Invalid FEN String. Move clock is not a number");
            },
        };
        if full_moves < 1 {
            return Err("Invalid FEN String. Move clock is not a number");
        }

        let mut rel_board = board;
        match player {
            Player::Black => {
                rel_board.flip();
                proof {
                    crate::board::lemma_flip_disjoint(board);
                }
            },
            Player::White => {},
        }

        Ok(
            GameState {
                relative_board: rel_board,
                player,
                castling,
                ep_square,
                halfmove_clock: half_moves,
                fullmove_clock: full_moves,
            },
        )
    }

    /// Whether `player`'s king is attacked by the other side.
    pub fn is_check(&self, player: Player) -> (r: bool)
        ensures
            r == in_check_spec(*self, player),
    {
        let opp = player.other();
        let attacked = if player == self.player {
            MoveGen::get_all_attacks_down(&self.relative_board, opp)
        } else {
            MoveGen::get_all_attacks(&self.relative_board, opp)
        };
        attacked & self.relative_board.get_pieceboard(player, Pieces::King).bitboard != 0
    }

    /// Applies `m` to the position in place: capture, piece transfer, the
    /// pawn or king special step, rights and clocks, then the mirror and
    /// the turn. Trusts the caller to pass a well-formed move; legality is
    /// the game layer's business.
    pub fn make_move(&mut self, m: &Move)
        requires
            wf_state(*old(self)),
            move_wf_board(old(self).relative_board, old(self).player, *m),
        ensures
            *final(self) == make_spec(*old(self), *m),
            wf_state(*final(self)),
    {
        proof {
            lemma_make_board_disjoint(*self, *m);
            lemma_flip_disjoint(make_board(*self, *m));
        }
        let piece = m.piece;
        let player = self.player;
        let opp = player.other();

        // capture
        let captured = self.relative_board.get_piece(m.to as i32);
        if let Some((x, y)) = captured {
            let _ = self.relative_board.flip_piece(x, y, m.to as i32);
        }
        // transfer the moving piece
        let _ = self.relative_board.flip_piece(player, piece, m.from as i32);
        let _ = self.relative_board.flip_piece(player, piece, m.to as i32);

        self.ep_square = None;

        // piece-specific step
        match piece {
            Pieces::Pawn => {
                if let Some(promo) = m.promotion {
                    let _ = self.relative_board.flip_piece(player, Pieces::Pawn, m.to as i32);
                    let _ = self.relative_board.flip_piece(player, promo, m.to as i32);
                } else if m.ep {
                    let _ = self.relative_board.flip_piece(opp, Pieces::Pawn, (m.to - 8) as i32);
                } else if m.to >= 16 && m.to - 16 == m.from {
                    let t = m.to;
                    let skipped = (t - 8) ^ 56;
                    proof {
                        assert(t < 64 && t >= 16 ==> ((((t - 8) as u32) ^ 56u32) < 64))
                            by (bit_vector);
                    }
                    self.ep_square = Some(skipped);
                }
            },
            Pieces::King => {
                if m.from == 3 && m.to == 1 {
                    let _ = self.relative_board.flip_piece(player, Pieces::Rook, 0);
                    let _ = self.relative_board.flip_piece(player, Pieces::Rook, 2);
                } else if m.from == 3 && m.to == 5 {
                    let _ = self.relative_board.flip_piece(player, Pieces::Rook, 7);
                    let _ = self.relative_board.flip_piece(player, Pieces::Rook, 4);
                }
            },
            _ => {},
        }

        // castling rights
        let mut castling = self.castling;
        if let Some((x, y)) = captured {
            if x == opp && y == Pieces::Rook && m.to == 56 {
                castling = castling & !match opp {
                    Player::White => CASTLE_WHITE_KINGSIDE,
                    Player::Black => CASTLE_BLACK_KINGSIDE,
                };
            } else if x == opp && y == Pieces::Rook && m.to == 63 {
                castling = castling & !match opp {
                    Player::White => CASTLE_WHITE_QUEENSIDE,
                    Player::Black => CASTLE_BLACK_QUEENSIDE,
                };
            }
        }
        let (own_k, own_q) = match player {
            Player::White => (CASTLE_WHITE_KINGSIDE, CASTLE_WHITE_QUEENSIDE),
            Player::Black => (CASTLE_BLACK_KINGSIDE, CASTLE_BLACK_QUEENSIDE),
        };
        match piece {
            Pieces::King => {
                castling = castling & !(own_k | own_q);
            },
            Pieces::Rook => {
                if m.from == 0 {
                    castling = castling & !own_k;
                } else if m.from == 7 {
                    castling = castling & !own_q;
                }
            },
            _ => {},
        }
        self.castling = castling;

        // mirror for the next side
        self.relative_board.flip();

        // clocks and turn
        let reset = captured.is_some() || piece == Pieces::Pawn;
        if reset {
            self.halfmove_clock = 0;
        } else if self.halfmove_clock < u32::MAX {
            self.halfmove_clock = self.halfmove_clock + 1;
        }
        if player == Player::Black {
            if self.fullmove_clock < u32::MAX {
                self.fullmove_clock = self.fullmove_clock + 1;
            }
        }
        self.player = opp;
    }
}

/// The undo stack: position snapshots, the live position on top.
#[derive(Debug)]
pub struct History {
    pub history: Vec<GameState>,
}

impl History {
    /// A stack holding one snapshot.
    pub fn new(game: GameState) -> (r: Self)
        ensures
            r.history@ == seq![game],
    {
        let mut history: Vec<GameState> = Vec::new();
        history.push(game);
        proof {
            assert(history@ =~= seq![game]);
        }
        History { history }
    }

    /// Empties the stack.
    pub fn clear(&mut self)
        ensures
            final(self).history@.len() == 0,
    {
        self.history.clear();
    }

    /// Pushes a snapshot.
    pub fn push(&mut self, game: GameState)
        ensures
            final(self).history@ == old(self).history@.push(game),
    {
        self.history.push(game);
    }

    /// Removes and returns the top snapshot; `None` when the stack is
    /// empty.
    pub fn pop(&mut self) -> (r: Option<GameState>)
        ensures
            old(self).history@.len() == 0 ==> r is None && *final(self) == *old(self),
            old(self).history@.len() > 0 ==> r == Some(old(self).history@.last())
                && final(self).history@ == old(self).history@.drop_last(),
    {
        if self.history.len() == 0 {
            return None;
        }
        self.history.pop()
    }

    /// The top snapshot without removing it; `None` when the stack is
    /// empty.
    pub fn peek(&self) -> (r: Option<GameState>)
        ensures
            self.history@.len() == 0 ==> r is None,
            self.history@.len() > 0 ==> r == Some(self.history@.last()),
    {
        if self.history.len() == 0 {
            return None;
        }
        let idx = self.history.len() - 1;
        Some(self.history[idx])
    }
}

/// The square index a two-character algebraic coordinate names, read from
/// `player`'s seat: the file letter maps to a falling file index, the rank
/// digit to the rank, mirrored for Black. Characters beyond the first two
/// are ignored.
pub open spec fn alg_square(s: Seq<char>, player: Player) -> Option<u32> {
    if s.len() >= 2 && 'a' as u32 <= s[0] as u32 && s[0] as u32 <= 'h' as u32 && '1' as u32 <= s[1]
        as u32 && s[1] as u32 <= '8' as u32 {
        let file = 7 - (s[0] as u32 - 'a' as u32);
        let rank0 = s[1] as u32 - '1' as u32;
        let rank = if player == Player::Black {
            7 - rank0
        } else {
            rank0 as int
        };
        Some((file + 8 * rank) as u32)
    } else {
        None
    }
}

/// The square index of an exactly-two-character algebraic coordinate in
/// the absolute frame, White's seat.
pub open spec fn alg_square_abs(s: Seq<char>) -> Option<u32> {
    if s.len() == 2 {
        alg_square(s, Player::White)
    } else {
        None
    }
}

/// Translates an exactly-two-character algebraic coordinate to its square
/// index in the absolute frame, White's seat.
pub fn algebraic_to_shift(pos: &str) -> (r: Option<u32>)
    ensures
        r == alg_square_abs(pos@),
        r matches Some(v) ==> v < 64,
{
    let n = pos.unicode_len();
    if n != 2 {
        return None;
    }
    let c0 = pos.get_char(0);
    let c1 = pos.get_char(1);
    proof {
        assert(pos@ =~= seq![pos@[0], pos@[1]]);
    }
    alg_square_chars(c0, c1, Player::White)
}

/// Translates two coordinate characters to a square index from `player`'s
/// seat.
pub(crate) fn alg_square_chars(c0: char, c1: char, player: Player) -> (r: Option<u32>)
    ensures
        r == alg_square(seq![c0, c1], player),
        r matches Some(v) ==> v < 64,
{
    let v0 = c0 as u32;
    let v1 = c1 as u32;
    if v0 < 'a' as u32 || v0 > 'h' as u32 {
        return None;
    }
    if v1 < '1' as u32 || v1 > '8' as u32 {
        return None;
    }
    let file = 7 - (v0 - 'a' as u32);
    let rank0 = v1 - '1' as u32;
    let rank = match player {
        Player::Black => 7 - rank0,
        Player::White => rank0,
    };
    Some(file + 8 * rank)
}

/// The file letter of a square, from the seat the board is held in.
pub open spec fn file_char_of(shift: u32) -> char {
    let f = 7 - ((shift as int) % 8);
    if f == 0 {
        'a'
    } else if f == 1 {
        'b'
    } else if f == 2 {
        'c'
    } else if f == 3 {
        'd'
    } else if f == 4 {
        'e'
    } else if f == 5 {
        'f'
    } else if f == 6 {
        'g'
    } else {
        'h'
    }
}

/// The rank digit of a square from `player`'s seat.
pub open spec fn rank_char_of(shift: u32, player: Player) -> char {
    let r0 = (shift as int) / 8;
    let r = if player == Player::Black {
        7 - r0
    } else {
        r0
    };
    if r == 0 {
        '1'
    } else if r == 1 {
        '2'
    } else if r == 2 {
        '3'
    } else if r == 3 {
        '4'
    } else if r == 4 {
        '5'
    } else if r == 5 {
        '6'
    } else if r == 6 {
        '7'
    } else {
        '8'
    }
}

/// Reads the FEN side-to-move field.
pub open spec fn parse_side(s: Seq<char>) -> Option<Player> {
    if s.len() == 1 && s[0] == 'w' {
        Some(Player::White)
    } else if s.len() == 1 && s[0] == 'b' {
        Some(Player::Black)
    } else {
        None
    }
}

/// Folds the castling letters from position `i` on into a flag mask.
pub open spec fn castling_scan(s: Seq<char>, i: int, acc: u8) -> Option<u8>
    decreases s.len() - i,
{
    if i < 0 || i > s.len() {
        None
    } else if i == s.len() {
        Some(acc)
    } else if s[i] == 'K' {
        castling_scan(s, i + 1, acc | CASTLE_WHITE_KINGSIDE)
    } else if s[i] == 'Q' {
        castling_scan(s, i + 1, acc | CASTLE_WHITE_QUEENSIDE)
    } else if s[i] == 'k' {
        castling_scan(s, i + 1, acc | CASTLE_BLACK_KINGSIDE)
    } else if s[i] == 'q' {
        castling_scan(s, i + 1, acc | CASTLE_BLACK_QUEENSIDE)
    } else {
        None
    }
}

/// Reads the FEN castling field: `-` for no rights, else letters from
/// `KQkq`.
pub open spec fn parse_castling(s: Seq<char>) -> Option<u8> {
    if s.len() == 1 && s[0] == '-' {
        Some(0u8)
    } else if s.len() == 0 {
        None
    } else {
        castling_scan(s, 0, 0)
    }
}

/// Reads the FEN en-passant field into a target square of `player`'s
/// relative frame: `-` for none, else an algebraic square.
pub open spec fn parse_ep(s: Seq<char>, player: Player) -> Option<Option<u32>> {
    if s.len() == 1 && s[0] == '-' {
        Some(None)
    } else if s.len() == 2 {
        match alg_square(s, player) {
            Some(v) => Some(Some(v)),
            None => None,
        }
    } else {
        None
    }
}

/// Reads a six-field FEN string into a position: placement, side to move,
/// castling rights, en-passant target, halfmove clock, and a positive
/// fullmove number; the board is mirrored when Black is to move. Fields
/// beyond the sixth are ignored.
pub open spec fn parse_fen(s: Seq<char>) -> Option<GameState> {
    let fields = crate::text::split_spaces(s);
    if fields.len() < 6 {
        None
    } else {
        match crate::board::parse_placement(fields[0]) {
            None => None,
            Some(board) => match parse_side(fields[1]) {
                None => None,
                Some(player) => match parse_castling(fields[2]) {
                    None => None,
                    Some(castling) => match parse_ep(fields[3], player) {
                        None => None,
                        Some(ep) => match crate::text::parse_u32(fields[4]) {
                            None => None,
                            Some(half) => match crate::text::parse_u32(fields[5]) {
                                None => None,
                                Some(full) => if full >= 1 {
                                    Some(
                                        GameState {
                                            relative_board: if player == Player::Black {
                                                board.spec_flip()
                                            } else {
                                                board
                                            },
                                            player: player,
                                            castling: castling,
                                            ep_square: ep,
                                            halfmove_clock: half,
                                            fullmove_clock: full,
                                        },
                                    )
                                } else {
                                    None
                                },
                            },
                        },
                    },
                },
            },
        }
    }
}

/// How a finished or unfinished game stands.
#[derive(Debug, Copy, Clone, PartialEq, Eq)]
pub enum GameResult {
    Win(Player),
    Remis,
    NotDone,
}

/// The game: the live position and the undo stack, whose top is always the
/// live position.
#[derive(Debug)]
pub struct Game {
    pub history: History,
    pub state: GameState,
}

/// The abstract value of a game: its live position and its snapshots.
pub open spec fn game_model(g: Game) -> (GameState, Seq<GameState>) {
    (g.state, g.history.history@)
}

/// A well-formed game: at least one snapshot, the live position on top,
/// every snapshot well formed.
pub open spec fn wf_game(g: Game) -> bool {
    &&& g.history.history@.len() >= 1
    &&& g.state == g.history.history@.last()
    &&& forall|i: int|
        0 <= i < g.history.history@.len() ==> wf_state(#[trigger] g.history.history@[i])
}

/// What applying a move does to the abstract game value: the position
/// steps forward and its snapshot is pushed.
pub open spec fn do_move_model(st: GameState, h: Seq<GameState>, m: Move) -> (
    GameState,
    Seq<GameState>,
) {
    (make_spec(st, m), h.push(make_spec(st, m)))
}

/// What undoing does to the abstract game value: the top snapshot goes and
/// the one below becomes live; with fewer than two snapshots nothing
/// happens.
pub open spec fn undo_model(st: GameState, h: Seq<GameState>) -> (GameState, Seq<GameState>) {
    if h.len() >= 2 {
        (h[h.len() - 2], h.drop_last())
    } else {
        (st, h)
    }
}

/// Applying any move and then undoing restores the game value exactly.
pub proof fn lemma_make_undo_round_trip(st: GameState, h: Seq<GameState>, m: Move)
    requires
        h.len() >= 1,
        st == h.last(),
    ensures
        undo_model(do_move_model(st, h, m).0, do_move_model(st, h, m).1) == (st, h),
{
    let ns = make_spec(st, m);
    let h2 = h.push(ns);
    assert(h2.drop_last() =~= h);
    assert(h2[h.len() - 1] == h[h.len() - 1]);
}

/// The legality filter keeps a move when it does not leave the mover's own
/// king in check.
pub open spec fn keeps(s: GameState, m: Move) -> bool {
    !in_check_spec(make_spec(s, m), s.player)
}

/// The kept moves among the first `i` of `list`, in order.
pub open spec fn legal_upto(s: GameState, list: Seq<Move>, i: int) -> Seq<Move>
    decreases i,
{
    if i <= 0 {
        Seq::empty()
    } else {
        legal_upto(s, list, i - 1) + (if keeps(s, list[i - 1]) {
            seq![list[i - 1]]
        } else {
            Seq::empty()
        })
    }
}

/// The legal moves of the side to move: the pseudo-legal moves that the
/// legality filter keeps.
pub open spec fn legal_list(s: GameState) -> Seq<Move> {
    legal_upto(s, crate::movegen::pseudo_legal_spec(s), crate::movegen::pseudo_legal_spec(s).len() as int)
}

/// Some pseudo-legal move survives the legality filter.
pub open spec fn has_legal_spec(s: GameState) -> bool {
    exists|j: int|
        0 <= j < crate::movegen::pseudo_legal_spec(s).len() && keeps(
            s,
            #[trigger] crate::movegen::pseudo_legal_spec(s)[j],
        )
}

/// `pl` stands checkmated: in check, and no pseudo-legal move of the side
/// to move takes `pl`'s king out of check.
pub open spec fn checkmate_spec(s: GameState, pl: Player) -> bool {
    in_check_spec(s, pl) && !(exists|j: int|
        0 <= j < crate::movegen::pseudo_legal_spec(s).len() && !in_check_spec(
            make_spec(s, #[trigger] crate::movegen::pseudo_legal_spec(s)[j]),
            pl,
        ))
}

/// How the game stands: a win for the side that checkmated the mover, a
/// draw on a dead clock or no legal reply, otherwise still open.
pub open spec fn game_result_spec(s: GameState) -> GameResult {
    if checkmate_spec(s, s.player) {
        GameResult::Win(s.player.spec_other())
    } else if s.halfmove_clock >= 50 || !has_legal_spec(s) {
        GameResult::Remis
    } else {
        GameResult::NotDone
    }
}

/// Membership in the filtered prefix: exactly the listed moves that the
/// filter keeps.
#[verifier::rlimit(100)]
proof fn lemma_legal_upto_contains(s: GameState, list: Seq<Move>, i: int)
    requires
        0 <= i <= list.len(),
    ensures
        forall|m: Move|
            #[trigger] legal_upto(s, list, i).contains(m) <==> exists|j: int|
                0 <= j < i && #[trigger] list[j] == m && keeps(s, list[j]),
    decreases i,
{
    if i > 0 {
        lemma_legal_upto_contains(s, list, i - 1);
        let prev = legal_upto(s, list, i - 1);
        let cur = legal_upto(s, list, i);
        assert forall|m: Move| #[trigger] cur.contains(m) implies exists|j: int|
            0 <= j < i && #[trigger] list[j] == m && keeps(s, list[j]) by {
            let k = choose|k: int| 0 <= k < cur.len() && cur[k] == m;
            if k < prev.len() {
                assert(prev[k] == m);
                assert(prev.contains(m));
                let j = choose|j: int| 0 <= j < i - 1 && #[trigger] list[j] == m && keeps(
                    s,
                    list[j],
                );
                assert(0 <= j < i && list[j] == m && keeps(s, list[j]));
            } else {
                assert(keeps(s, list[i - 1]) && m == list[i - 1]);
            }
        }
        assert forall|m: Move|
            (exists|j: int| 0 <= j < i && #[trigger] list[j] == m && keeps(s, list[j])) implies
            #[trigger] cur.contains(m) by {
            let j = choose|j: int| 0 <= j < i && #[trigger] list[j] == m && keeps(s, list[j]);
            if j < i - 1 {
                assert(prev.contains(m));
                let k = choose|k: int| 0 <= k < prev.len() && prev[k] == m;
                assert(cur[k] == m);
            } else {
                assert(cur[prev.len() as int] == m);
            }
        }
    }
}

/// The law of the legality filter: a move is legal exactly when it is
/// pseudo-legal and does not leave the mover's own king in check.
pub proof fn lemma_legal_moves_filter(s: GameState)
    ensures
        forall|m: Move|
            #[trigger] legal_list(s).contains(m) <==> (crate::movegen::pseudo_legal_spec(
                s,
            ).contains(m) && !in_check_spec(make_spec(s, m), s.player)),
{
    let list = crate::movegen::pseudo_legal_spec(s);
    lemma_legal_upto_contains(s, list, list.len() as int);
}

/// No legal move exists exactly when the filtered list is empty.
pub proof fn lemma_has_legal_len(s: GameState)
    ensures
        has_legal_spec(s) <==> legal_list(s).len() != 0,
{
    let list = crate::movegen::pseudo_legal_spec(s);
    lemma_legal_upto_contains(s, list, list.len() as int);
    if has_legal_spec(s) {
        let j = choose|j: int| 0 <= j < list.len() && keeps(s, #[trigger] list[j]);
        assert(legal_list(s).contains(list[j]));
    }
    if legal_list(s).len() != 0 {
        assert(legal_list(s).contains(legal_list(s)[0]));
    }
}

/// The checkmate and stalemate law: with the mover's legal moves gone, the
/// game is checkmate for the mover exactly when the mover is in check;
/// with a legal move left, it is no checkmate for the mover.
pub proof fn lemma_checkmate_stalemate(s: GameState)
    ensures
        legal_list(s).len() == 0 ==> (checkmate_spec(s, s.player) <==> in_check_spec(s, s.player)),
        legal_list(s).len() != 0 ==> !checkmate_spec(s, s.player),
{
    lemma_has_legal_len(s);
}

/// Field-by-field comparison of two moves.
fn move_eq(a: Move, b: Move) -> (r: bool)
    ensures
        r == (a == b),
{
    let promo_eq = match (a.promotion, b.promotion) {
        (Option::None, Option::None) => true,
        (Option::Some(x), Option::Some(y)) => x == y,
        _ => false,
    };
    a.piece == b.piece && a.from == b.from && a.to == b.to && promo_eq && a.ep == b.ep
}

impl Game {
    /// Builds a game from a FEN string, seeding the undo stack with the
    /// opening snapshot.
    pub fn from_fen(fen: &str) -> (r: Result<Game, &'static str>)
        ensures
            r is Ok <==> parse_fen(fen@) is Some,
            r matches Ok(g) ==> wf_game(g) && Some(g.state) == parse_fen(fen@)
                && g.history.history@ == seq![g.state],
    {
        let state = GameState::from_fen(fen);
        match state {
            Ok(state) => {
                let history = History::new(state);
                Ok(Game { state: state, history: history })
            },
            Err(x) => Err(x),
        }
    }

    /// Replaces the game by the position a FEN string describes, clearing
    /// the undo stack; a malformed string leaves the game untouched.
    pub fn load_fen(&mut self, fen: &str) -> (r: Result<(), &'static str>)
        requires
            wf_game(*old(self)),
        ensures
            wf_game(*final(self)),
            r is Ok <==> parse_fen(fen@) is Some,
            r is Ok ==> game_model(*final(self)) == (
                parse_fen(fen@)->0,
                seq![parse_fen(fen@)->0],
            ),
            r is Err ==> game_model(*final(self)) == game_model(*old(self)),
    {
        let state = match GameState::from_fen(fen) {
            Ok(state) => state,
            Err(x) => {
                return Err(x);
            },
        };
        self.history.clear();
        self.state = state;
        self.history.push(state);
        proof {
            assert(final(self).history.history@ =~= seq![state]);
        }
        Ok(())
    }

    /// Applies `m` to the live position and pushes the new snapshot.
    /// Trusts the caller to pass a well-formed move; legality is
    /// `makemove`'s business.
    pub fn do_move(&mut self, m: &Move)
        requires
            wf_game(*old(self)),
            move_wf_board(old(self).state.relative_board, old(self).state.player, *m),
        ensures
            wf_game(*final(self)),
            game_model(*final(self)) == do_move_model(
                old(self).state,
                old(self).history.history@,
                *m,
            ),
    {
        self.state.make_move(m);
        self.history.push(self.state);
    }

    /// Pops the top snapshot and makes the one below live; does nothing
    /// when no older snapshot exists.
    pub fn undo_move(&mut self)
        requires
            wf_game(*old(self)),
        ensures
            wf_game(*final(self)),
            game_model(*final(self)) == undo_model(old(self).state, old(self).history.history@),
    {
        if self.history.history.len() >= 2 {
            let _ = self.history.pop();
            if let Some(x) = self.history.peek() {
                self.state = x;
            }
        }
    }

    /// The pseudo-legal moves of the live position.
    pub fn moves(&self) -> (r: Vec<Move>)
        ensures
            r@ == crate::movegen::pseudo_legal_spec(self.state),
            forall|k: int|
                0 <= k < r@.len() ==> move_wf_board(
                    self.state.relative_board,
                    self.state.player,
                    #[trigger] r@[k],
                ),
    {
        MoveGen::pseudo_legal(&self.state)
    }

    /// The legal moves of the live position: the pseudo-legal moves that do
    /// not leave the mover's own king in check, found by applying each and
    /// undoing it. The game comes back exactly as it was.
    #[verifier::rlimit(60)]
    pub fn legal_moves(&mut self) -> (r: Vec<Move>)
        requires
            wf_game(*old(self)),
        ensures
            wf_game(*final(self)),
            game_model(*final(self)) == game_model(*old(self)),
            r@ == legal_list(old(self).state),
            forall|k: int|
                0 <= k < r@.len() ==> move_wf_board(
                    old(self).state.relative_board,
                    old(self).state.player,
                    #[trigger] r@[k],
                ),
    {
        let player = self.state.get_player();
        let pseudo = self.moves();
        let mut legal: Vec<Move> = Vec::new();
        let mut idx: usize = 0;
        while idx < pseudo.len()
            invariant
                wf_game(*self),
                game_model(*self) == game_model(*old(self)),
                player == old(self).state.player,
                pseudo@ == crate::movegen::pseudo_legal_spec(old(self).state),
                forall|k: int|
                    0 <= k < pseudo@.len() ==> move_wf_board(
                        old(self).state.relative_board,
                        old(self).state.player,
                        #[trigger] pseudo@[k],
                    ),
                idx <= pseudo@.len(),
                legal@ == legal_upto(old(self).state, pseudo@, idx as int),
                forall|k: int|
                    0 <= k < legal@.len() ==> move_wf_board(
                        old(self).state.relative_board,
                        old(self).state.player,
                        #[trigger] legal@[k],
                    ),
            decreases pseudo@.len() - idx,
        {
            let ghost pre = legal@;
            let m = pseudo[idx];
            self.do_move(&m);
            if !self.state.is_check(player) {
                legal.push(m);
                proof {
                    assert(legal@ =~= pre + seq![m]);
                }
            } else {
                proof {
                    assert(pre + Seq::<Move>::empty() =~= pre);
                }
            }
            self.undo_move();
            proof {
                lemma_make_undo_round_trip(
                    old(self).state,
                    old(self).history.history@,
                    m,
                );
            }
            idx = idx + 1;
        }
        legal
    }

    /// Applies `m` when it is legal; otherwise reports the move illegal
    /// and leaves the game exactly as it was.
    #[verifier::rlimit(60)]
    pub fn makemove(&mut self, m: &Move) -> (r: Result<(), &'static str>)
        requires
            wf_game(*old(self)),
        ensures
            wf_game(*final(self)),
            r is Ok <==> legal_list(old(self).state).contains(*m),
            r is Ok ==> game_model(*final(self)) == do_move_model(
                old(self).state,
                old(self).history.history@,
                *m,
            ),
            r is Err ==> game_model(*final(self)) == game_model(*old(self)),
    {
        proof {
            lemma_legal_moves_filter(self.state);
        }
        let player = self.state.get_player();
        let pseudo = self.moves();
        let mut found = false;
        let mut idx: usize = 0;
        while idx < pseudo.len()
            invariant
                idx <= pseudo@.len(),
                found <==> exists|j: int| 0 <= j < idx && #[trigger] pseudo@[j] == *m,
            decreases pseudo@.len() - idx,
        {
            if move_eq(pseudo[idx], *m) {
                found = true;
            }
            idx = idx + 1;
        }
        if !found {
            return Err("Move was illegal.");
        }
        proof {
            let j = choose|j: int| 0 <= j < pseudo@.len() && #[trigger] pseudo@[j] == *m;
            assert(move_wf_board(self.state.relative_board, self.state.player, pseudo@[j]));
        }
        self.do_move(m);
        if self.state.is_check(player) {
            self.undo_move();
            proof {
                lemma_make_undo_round_trip(
                    old(self).state,
                    old(self).history.history@,
                    *m,
                );
            }
            return Err("Move was illegal.");
        }
        Ok(())
    }

    /// Whether some legal move exists for the side to move. The game comes
    /// back exactly as it was.
    #[verifier::rlimit(60)]
    pub fn exists_legal_move(&mut self) -> (r: bool)
        requires
            wf_game(*old(self)),
        ensures
            wf_game(*final(self)),
            game_model(*final(self)) == game_model(*old(self)),
            r == has_legal_spec(old(self).state),
    {
        let player = self.state.get_player();
        let pseudo = self.moves();
        let mut idx: usize = 0;
        while idx < pseudo.len()
            invariant
                wf_game(*self),
                game_model(*self) == game_model(*old(self)),
                player == old(self).state.player,
                pseudo@ == crate::movegen::pseudo_legal_spec(old(self).state),
                forall|k: int|
                    0 <= k < pseudo@.len() ==> move_wf_board(
                        old(self).state.relative_board,
                        old(self).state.player,
                        #[trigger] pseudo@[k],
                    ),
                idx <= pseudo@.len(),
                forall|j: int| 0 <= j < idx ==> !keeps(old(self).state, #[trigger] pseudo@[j]),
            decreases pseudo@.len() - idx,
        {
            let m = pseudo[idx];
            self.do_move(&m);
            let escaped = !self.state.is_check(player);
            self.undo_move();
            proof {
                lemma_make_undo_round_trip(
                    old(self).state,
                    old(self).history.history@,
                    m,
                );
            }
            if escaped {
                return true;
            }
            idx = idx + 1;
        }
        false
    }

    /// Whether `player` stands checkmated in the live position. The game
    /// comes back exactly as it was.
    #[verifier::rlimit(60)]
    pub fn is_checkmate(&mut self, player: Player) -> (r: bool)
        requires
            wf_game(*old(self)),
        ensures
            wf_game(*final(self)),
            game_model(*final(self)) == game_model(*old(self)),
            r == checkmate_spec(old(self).state, player),
    {
        if !self.state.is_check(player) {
            return false;
        }
        let pseudo = self.moves();
        let mut idx: usize = 0;
        while idx < pseudo.len()
            invariant
                wf_game(*self),
                game_model(*self) == game_model(*old(self)),
                pseudo@ == crate::movegen::pseudo_legal_spec(old(self).state),
                forall|k: int|
                    0 <= k < pseudo@.len() ==> move_wf_board(
                        old(self).state.relative_board,
                        old(self).state.player,
                        #[trigger] pseudo@[k],
                    ),
                idx <= pseudo@.len(),
                forall|j: int|
                    0 <= j < idx ==> in_check_spec(
                        make_spec(old(self).state, #[trigger] pseudo@[j]),
                        player,
                    ),
            decreases pseudo@.len() - idx,
        {
            let m = pseudo[idx];
            self.do_move(&m);
            let escaped = !self.state.is_check(player);
            self.undo_move();
            proof {
                lemma_make_undo_round_trip(
                    old(self).state,
                    old(self).history.history@,
                    m,
                );
            }
            if escaped {
                return false;
            }
            idx = idx + 1;
        }
        true
    }

    /// Whether the game is drawn for the side to move: the halfmove clock
    /// has reached fifty, or no legal move is left. The game comes back
    /// exactly as it was.
    pub fn is_remis(&mut self) -> (r: bool)
        requires
            wf_game(*old(self)),
        ensures
            wf_game(*final(self)),
            game_model(*final(self)) == game_model(*old(self)),
            r == (old(self).state.halfmove_clock >= 50 || !has_legal_spec(old(self).state)),
    {
        if self.state.halfmove_clock >= 50 {
            return true;
        }
        if !self.exists_legal_move() {
            return true;
        }
        false
    }

    /// How the game stands in the live position. The game comes back
    /// exactly as it was.
    pub fn get_game_result(&mut self) -> (r: GameResult)
        requires
            wf_game(*old(self)),
        ensures
            wf_game(*final(self)),
            game_model(*final(self)) == game_model(*old(self)),
            r == game_result_spec(old(self).state),
    {
        let player = self.state.get_player();
        if self.is_checkmate(player) {
            return GameResult::Win(player.other());
        }
        if self.is_remis() {
            return GameResult::Remis;
        }
        GameResult::NotDone
    }
}

} // verus!
