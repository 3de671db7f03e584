//! Bitboard encoding of the piece placement.
//!
//! A square index `s` in `[0, 63]` addresses the board from the side to
//! move's own seat: bit 0 is that side's kingside corner, bit 7 its queenside
//! corner, bits 56..63 the opponent's back rank. File and rank of `s` are
//! `s % 8` (0 = kingside file) and `s / 8`. Mirroring the ranks — a byte
//! reversal of every bitboard — turns the board around so that the other
//! side sits on the low ranks.

use crate::bits::bit64;
use crate::bits::byte_reverse;
use crate::bits::lemma_byte_reverse_bit;
use crate::bits::lemma_byte_reverse_involution;
use vstd::prelude::*;

verus! {

/// The six piece kinds.
#[derive(Debug, Copy, Clone, PartialEq, Eq, Structural)]
pub enum Pieces {
    Pawn,
    Rook,
    Knight,
    Bishop,
    Queen,
    King,
}

/// The two sides.
#[derive(Debug, Copy, Clone, PartialEq, Eq, Structural)]
pub enum Player {
    White,
    Black,
}

impl Player {
    /// The opposing side.
    pub open spec fn spec_other(self) -> Player {
        match self {
            Player::White => Player::Black,
            Player::Black => Player::White,
        }
    }

    /// Returns the opposing side; taking it twice gives the side back.
    pub fn other(self) -> (r: Player)
        ensures
            r == self.spec_other(),
            r.spec_other() == self,
    {
        match self {
            Player::White => Player::Black,
            Player::Black => Player::White,
        }
    }
}

/// Position of a piece kind of one side in the fixed bitboard order:
/// White first, kinds in declaration order.
pub open spec fn bb_index(pl: Player, pc: Pieces) -> int {
    (match pl {
        Player::White => 0int,
        Player::Black => 6int,
    }) + (match pc {
        Pieces::Pawn => 0int,
        Pieces::Rook => 1int,
        Pieces::Knight => 2int,
        Pieces::Bishop => 3int,
        Pieces::Queen => 4int,
        Pieces::King => 5int,
    })
}

/// A 64-bit mask with one bit per square.
#[derive(Debug, Copy, Clone, PartialEq, Eq, Structural)]
pub struct BitBoard {
    pub bitboard: u64,
}

impl BitBoard {
    /// The empty mask.
    pub fn new() -> (r: Self)
        ensures
            r.bitboard == 0u64,
    {
        BitBoard { bitboard: 0u64 }
    }

    /// Toggles the bit of square `shift`; square indices outside `[0, 63]`
    /// are rejected and leave the mask unchanged.
    pub fn flip_bit(&mut self, shift: i32) -> (r: Result<(), &'static str>)
        ensures
            r is Ok <==> 0 <= shift < 64,
            0 <= shift < 64 ==> final(self).bitboard == old(self).bitboard ^ (1u64 << (
            shift as u64)),
            !(0 <= shift < 64) ==> *final(self) == *old(self),
    {
        if shift >= 64 || shift < 0 {
            return Err("Idx is not well defined");
        }
        let mask = 1u64 << (shift as u64);
        self.bitboard = self.bitboard ^ mask;
        Ok(())
    }

    /// Reads the bit of square `shift`; square indices outside `[0, 63]` are
    /// rejected.
    pub fn get_bit(&self, shift: i32) -> (r: Result<bool, &'static str>)
        ensures
            r is Ok <==> 0 <= shift < 64,
            0 <= shift < 64 ==> r == Ok::<bool, &'static str>(
                bit64(self.bitboard, shift as u64),
            ),
    {
        if shift >= 64 || shift < 0 {
            return Err("Idx is not well defined");
        }
        let s = shift as u64;
        let mask = 1u64 << s;
        let b = self.bitboard;
        if mask & b != 0 {
            proof {
                assert(s < 64 && (1u64 << s) & b != 0 ==> (b >> s) & 1u64 == 1u64) by (bit_vector);
            }
            Ok(true)
        } else {
            proof {
                assert(s < 64 && (1u64 << s) & b == 0 ==> (b >> s) & 1u64 != 1u64) by (bit_vector);
            }
            Ok(false)
        }
    }
}

/// Twelve bitboards, one per side and piece kind. The placement is well
/// formed when no square is claimed by two of them.
#[derive(Debug, Copy, Clone, PartialEq, Eq, Structural)]
pub struct Board {
    pub white_pawns: BitBoard,
    pub white_rooks: BitBoard,
    pub white_knights: BitBoard,
    pub white_bishops: BitBoard,
    pub white_queens: BitBoard,
    pub white_kings: BitBoard,
    pub black_pawns: BitBoard,
    pub black_rooks: BitBoard,
    pub black_knights: BitBoard,
    pub black_bishops: BitBoard,
    pub black_queens: BitBoard,
    pub black_kings: BitBoard,
}

impl Board {
    /// The `i`-th bitboard in the fixed order of `bb_index`.
    pub open spec fn nth_bb(self, i: int) -> u64 {
        if i == 0 {
            self.white_pawns.bitboard
        } else if i == 1 {
            self.white_rooks.bitboard
        } else if i == 2 {
            self.white_knights.bitboard
        } else if i == 3 {
            self.white_bishops.bitboard
        } else if i == 4 {
            self.white_queens.bitboard
        } else if i == 5 {
            self.white_kings.bitboard
        } else if i == 6 {
            self.black_pawns.bitboard
        } else if i == 7 {
            self.black_rooks.bitboard
        } else if i == 8 {
            self.black_knights.bitboard
        } else if i == 9 {
            self.black_bishops.bitboard
        } else if i == 10 {
            self.black_queens.bitboard
        } else {
            self.black_kings.bitboard
        }
    }

    /// The bitboard of one side and piece kind.
    pub open spec fn spec_bb(self, pl: Player, pc: Pieces) -> u64 {
        self.nth_bb(bb_index(pl, pc))
    }

    /// Union of all twelve bitboards: every occupied square.
    pub open spec fn spec_occupied(self) -> u64 {
        self.spec_side_mask(Player::White) | self.spec_side_mask(Player::Black)
    }

    /// Union of one side's six bitboards.
    pub open spec fn spec_side_mask(self, pl: Player) -> u64 {
        match pl {
            Player::White => self.white_pawns.bitboard | self.white_rooks.bitboard
                | self.white_knights.bitboard | self.white_bishops.bitboard
                | self.white_queens.bitboard | self.white_kings.bitboard,
            Player::Black => self.black_pawns.bitboard | self.black_rooks.bitboard
                | self.black_knights.bitboard | self.black_bishops.bitboard
                | self.black_queens.bitboard | self.black_kings.bitboard,
        }
    }

    /// `self` with the `i`-th bitboard replaced by `v`.
    pub open spec fn with_nth_bb(self, i: int, v: u64) -> Board {
        if i == 0 {
            Board { white_pawns: BitBoard { bitboard: v }, ..self }
        } else if i == 1 {
            Board { white_rooks: BitBoard { bitboard: v }, ..self }
        } else if i == 2 {
            Board { white_knights: BitBoard { bitboard: v }, ..self }
        } else if i == 3 {
            Board { white_bishops: BitBoard { bitboard: v }, ..self }
        } else if i == 4 {
            Board { white_queens: BitBoard { bitboard: v }, ..self }
        } else if i == 5 {
            Board { white_kings: BitBoard { bitboard: v }, ..self }
        } else if i == 6 {
            Board { black_pawns: BitBoard { bitboard: v }, ..self }
        } else if i == 7 {
            Board { black_rooks: BitBoard { bitboard: v }, ..self }
        } else if i == 8 {
            Board { black_knights: BitBoard { bitboard: v }, ..self }
        } else if i == 9 {
            Board { black_bishops: BitBoard { bitboard: v }, ..self }
        } else if i == 10 {
            Board { black_queens: BitBoard { bitboard: v }, ..self }
        } else {
            Board { black_kings: BitBoard { bitboard: v }, ..self }
        }
    }

    /// `self` with the bit of square `s` toggled on one bitboard.
    pub open spec fn spec_xor_bit(self, pl: Player, pc: Pieces, s: u64) -> Board {
        self.with_nth_bb(bb_index(pl, pc), self.spec_bb(pl, pc) ^ (1u64 << s))
    }

    /// Every bitboard byte-reversed: the mirror-image placement.
    pub open spec fn spec_flip(self) -> Board {
        Board {
            white_pawns: BitBoard { bitboard: byte_reverse(self.white_pawns.bitboard) },
            white_rooks: BitBoard { bitboard: byte_reverse(self.white_rooks.bitboard) },
            white_knights: BitBoard { bitboard: byte_reverse(self.white_knights.bitboard) },
            white_bishops: BitBoard { bitboard: byte_reverse(self.white_bishops.bitboard) },
            white_queens: BitBoard { bitboard: byte_reverse(self.white_queens.bitboard) },
            white_kings: BitBoard { bitboard: byte_reverse(self.white_kings.bitboard) },
            black_pawns: BitBoard { bitboard: byte_reverse(self.black_pawns.bitboard) },
            black_rooks: BitBoard { bitboard: byte_reverse(self.black_rooks.bitboard) },
            black_knights: BitBoard { bitboard: byte_reverse(self.black_knights.bitboard) },
            black_bishops: BitBoard { bitboard: byte_reverse(self.black_bishops.bitboard) },
            black_queens: BitBoard { bitboard: byte_reverse(self.black_queens.bitboard) },
            black_kings: BitBoard { bitboard: byte_reverse(self.black_kings.bitboard) },
        }
    }

    /// No square is claimed by two of the twelve bitboards.
    pub open spec fn disjoint(self) -> bool {
        forall|i: int, j: int, s: u64|
            #![trigger bit64(self.nth_bb(i), s), bit64(self.nth_bb(j), s)]
            0 <= i < 12 && 0 <= j < 12 && i != j && s < 64 ==> !(bit64(self.nth_bb(i), s) && bit64(
                self.nth_bb(j),
                s,
            ))
    }

    /// The piece on square `s`, scanning the twelve bitboards in the fixed
    /// order and reporting the first claim.
    pub open spec fn spec_piece_at(self, s: u64) -> Option<(Player, Pieces)> {
        if bit64(self.white_pawns.bitboard, s) {
            Some((Player::White, Pieces::Pawn))
        } else if bit64(self.white_rooks.bitboard, s) {
            Some((Player::White, Pieces::Rook))
        } else if bit64(self.white_knights.bitboard, s) {
            Some((Player::White, Pieces::Knight))
        } else if bit64(self.white_bishops.bitboard, s) {
            Some((Player::White, Pieces::Bishop))
        } else if bit64(self.white_queens.bitboard, s) {
            Some((Player::White, Pieces::Queen))
        } else if bit64(self.white_kings.bitboard, s) {
            Some((Player::White, Pieces::King))
        } else if bit64(self.black_pawns.bitboard, s) {
            Some((Player::Black, Pieces::Pawn))
        } else if bit64(self.black_rooks.bitboard, s) {
            Some((Player::Black, Pieces::Rook))
        } else if bit64(self.black_knights.bitboard, s) {
            Some((Player::Black, Pieces::Knight))
        } else if bit64(self.black_bishops.bitboard, s) {
            Some((Player::Black, Pieces::Bishop))
        } else if bit64(self.black_queens.bitboard, s) {
            Some((Player::Black, Pieces::Queen))
        } else if bit64(self.black_kings.bitboard, s) {
            Some((Player::Black, Pieces::King))
        } else {
            None
        }
    }

    /// The piece on square `shift`, if any; square indices outside `[0, 63]`
    /// hold no piece.
    pub fn get_piece(&self, shift: i32) -> (r: Option<(Player, Pieces)>)
        ensures
            r == if 0 <= shift < 64 {
                self.spec_piece_at(shift as u64)
            } else {
                None::<(Player, Pieces)>
            },
    {
        if shift < 0 || shift >= 64 {
            return None;
        }
        let s = shift as u64;
        proof {
            crate::bits::lemma_mask_bit(self.white_pawns.bitboard, s);
            crate::bits::lemma_mask_bit(self.white_rooks.bitboard, s);
            crate::bits::lemma_mask_bit(self.white_knights.bitboard, s);
            crate::bits::lemma_mask_bit(self.white_bishops.bitboard, s);
            crate::bits::lemma_mask_bit(self.white_queens.bitboard, s);
            crate::bits::lemma_mask_bit(self.white_kings.bitboard, s);
            crate::bits::lemma_mask_bit(self.black_pawns.bitboard, s);
            crate::bits::lemma_mask_bit(self.black_rooks.bitboard, s);
            crate::bits::lemma_mask_bit(self.black_knights.bitboard, s);
            crate::bits::lemma_mask_bit(self.black_bishops.bitboard, s);
            crate::bits::lemma_mask_bit(self.black_queens.bitboard, s);
            crate::bits::lemma_mask_bit(self.black_kings.bitboard, s);
        }
        let mask = 1u64 << s;
        if self.white_pawns.bitboard & mask != 0 {
            Some((Player::White, Pieces::Pawn))
        } else if self.white_rooks.bitboard & mask != 0 {
            Some((Player::White, Pieces::Rook))
        } else if self.white_knights.bitboard & mask != 0 {
            Some((Player::White, Pieces::Knight))
        } else if self.white_bishops.bitboard & mask != 0 {
            Some((Player::White, Pieces::Bishop))
        } else if self.white_queens.bitboard & mask != 0 {
            Some((Player::White, Pieces::Queen))
        } else if self.white_kings.bitboard & mask != 0 {
            Some((Player::White, Pieces::King))
        } else if self.black_pawns.bitboard & mask != 0 {
            Some((Player::Black, Pieces::Pawn))
        } else if self.black_rooks.bitboard & mask != 0 {
            Some((Player::Black, Pieces::Rook))
        } else if self.black_knights.bitboard & mask != 0 {
            Some((Player::Black, Pieces::Knight))
        } else if self.black_bishops.bitboard & mask != 0 {
            Some((Player::Black, Pieces::Bishop))
        } else if self.black_queens.bitboard & mask != 0 {
            Some((Player::Black, Pieces::Queen))
        } else if self.black_kings.bitboard & mask != 0 {
            Some((Player::Black, Pieces::King))
        } else {
            None
        }
    }

    /// The bitboard of one side and piece kind.
    pub fn get_pieceboard(&self, player: Player, piece: Pieces) -> (r: BitBoard)
        ensures
            r.bitboard == self.spec_bb(player, piece),
    {
        match player {
            Player::White => match piece {
                Pieces::Pawn => self.white_pawns,
                Pieces::Rook => self.white_rooks,
                Pieces::Knight => self.white_knights,
                Pieces::Bishop => self.white_bishops,
                Pieces::Queen => self.white_queens,
                Pieces::King => self.white_kings,
            },
            Player::Black => match piece {
                Pieces::Pawn => self.black_pawns,
                Pieces::Rook => self.black_rooks,
                Pieces::Knight => self.black_knights,
                Pieces::Bishop => self.black_bishops,
                Pieces::Queen => self.black_queens,
                Pieces::King => self.black_kings,
            },
        }
    }

    /// Mask of the free squares: the complement of the occupancy.
    pub fn get_freesq_mask(&self) -> (r: u64)
        ensures
            r == !self.spec_occupied(),
    {
        let occ = self.get_player_mask(Player::White) | self.get_player_mask(Player::Black);
        !occ
    }

    /// Mask of the squares occupied by one side.
    pub fn get_player_mask(&self, player: Player) -> (r: u64)
        ensures
            r == self.spec_side_mask(player),
    {
        match player {
            Player::White => self.white_pawns.bitboard | self.white_rooks.bitboard
                | self.white_knights.bitboard | self.white_bishops.bitboard
                | self.white_queens.bitboard | self.white_kings.bitboard,
            Player::Black => self.black_pawns.bitboard | self.black_rooks.bitboard
                | self.black_knights.bitboard | self.black_bishops.bitboard
                | self.black_queens.bitboard | self.black_kings.bitboard,
        }
    }

    /// Toggles the bit of square `shift` on one bitboard, placing or lifting
    /// a piece. Square indices outside `[0, 63]` are rejected; callers keep
    /// the disjointness invariant.
    pub fn flip_piece(&mut self, player: Player, piece: Pieces, shift: i32) -> (r: Result<
        (),
        &'static str,
    >)
        ensures
            r is Ok <==> 0 <= shift < 64,
            0 <= shift < 64 ==> *final(self) == old(self).spec_xor_bit(player, piece, shift as u64),
            !(0 <= shift < 64) ==> *final(self) == *old(self),
    {
        match player {
            Player::White => match piece {
                Pieces::Pawn => self.white_pawns.flip_bit(shift),
                Pieces::Rook => self.white_rooks.flip_bit(shift),
                Pieces::Knight => self.white_knights.flip_bit(shift),
                Pieces::Bishop => self.white_bishops.flip_bit(shift),
                Pieces::Queen => self.white_queens.flip_bit(shift),
                Pieces::King => self.white_kings.flip_bit(shift),
            },
            Player::Black => match piece {
                Pieces::Pawn => self.black_pawns.flip_bit(shift),
                Pieces::Rook => self.black_rooks.flip_bit(shift),
                Pieces::Knight => self.black_knights.flip_bit(shift),
                Pieces::Bishop => self.black_bishops.flip_bit(shift),
                Pieces::Queen => self.black_queens.flip_bit(shift),
                Pieces::King => self.black_kings.flip_bit(shift),
            },
        }
    }

    /// Mirrors the placement: byte-reverses each of the twelve bitboards.
    pub fn flip(&mut self)
        ensures
            *final(self) == old(self).spec_flip(),
    {
        self.white_pawns.bitboard = bswap64(self.white_pawns.bitboard);
        self.white_rooks.bitboard = bswap64(self.white_rooks.bitboard);
        self.white_knights.bitboard = bswap64(self.white_knights.bitboard);
        self.white_bishops.bitboard = bswap64(self.white_bishops.bitboard);
        self.white_queens.bitboard = bswap64(self.white_queens.bitboard);
        self.white_kings.bitboard = bswap64(self.white_kings.bitboard);
        self.black_pawns.bitboard = bswap64(self.black_pawns.bitboard);
        self.black_rooks.bitboard = bswap64(self.black_rooks.bitboard);
        self.black_knights.bitboard = bswap64(self.black_knights.bitboard);
        self.black_bishops.bitboard = bswap64(self.black_bishops.bitboard);
        self.black_queens.bitboard = bswap64(self.black_queens.bitboard);
        self.black_kings.bitboard = bswap64(self.black_kings.bitboard);
    }
}

/// The side and piece kind a FEN letter stands for: uppercase White,
/// lowercase Black.
pub open spec fn piece_of_char(c: char) -> Option<(Player, Pieces)> {
    if c == 'P' {
        Some((Player::White, Pieces::Pawn))
    } else if c == 'R' {
        Some((Player::White, Pieces::Rook))
    } else if c == 'N' {
        Some((Player::White, Pieces::Knight))
    } else if c == 'B' {
        Some((Player::White, Pieces::Bishop))
    } else if c == 'Q' {
        Some((Player::White, Pieces::Queen))
    } else if c == 'K' {
        Some((Player::White, Pieces::King))
    } else if c == 'p' {
        Some((Player::Black, Pieces::Pawn))
    } else if c == 'r' {
        Some((Player::Black, Pieces::Rook))
    } else if c == 'n' {
        Some((Player::Black, Pieces::Knight))
    } else if c == 'b' {
        Some((Player::Black, Pieces::Bishop))
    } else if c == 'q' {
        Some((Player::Black, Pieces::Queen))
    } else if c == 'k' {
        Some((Player::Black, Pieces::King))
    } else {
        None
    }
}

/// The board with no pieces.
pub open spec fn empty_board() -> Board {
    Board {
        white_pawns: BitBoard { bitboard: 0u64 },
        white_rooks: BitBoard { bitboard: 0u64 },
        white_knights: BitBoard { bitboard: 0u64 },
        white_bishops: BitBoard { bitboard: 0u64 },
        white_queens: BitBoard { bitboard: 0u64 },
        white_kings: BitBoard { bitboard: 0u64 },
        black_pawns: BitBoard { bitboard: 0u64 },
        black_rooks: BitBoard { bitboard: 0u64 },
        black_knights: BitBoard { bitboard: 0u64 },
        black_bishops: BitBoard { bitboard: 0u64 },
        black_queens: BitBoard { bitboard: 0u64 },
        black_kings: BitBoard { bitboard: 0u64 },
    }
}

/// Reads the piece-placement field from position `i` on, filling rank `r`
/// with `f` of its files already filled. Ranks run from the top of the
/// board down, each summing to exactly eight files, separated by `/`.
pub open spec fn placement_scan(s: Seq<char>, i: int, r: int, f: int, b: Board) -> Option<Board>
    decreases s.len() - i,
{
    if i < 0 || i > s.len() {
        None
    } else if i == s.len() {
        if r == 0 && f == 8 {
            Some(b)
        } else {
            None
        }
    } else {
        let c = s[i];
        if c == '/' {
            if f == 8 && r > 0 {
                placement_scan(s, i + 1, r - 1, 0, b)
            } else {
                None
            }
        } else if '1' <= c && c <= '8' {
            let d = c as u32 - '0' as u32;
            if f + d <= 8 {
                placement_scan(s, i + 1, r, f + d, b)
            } else {
                None
            }
        } else {
            match piece_of_char(c) {
                Some((pl, pc)) => if f < 8 {
                    placement_scan(
                        s,
                        i + 1,
                        r,
                        f + 1,
                        b.spec_xor_bit(pl, pc, (8 * r + 7 - f) as u64),
                    )
                } else {
                    None
                },
                None => None,
            }
        }
    }
}

/// The board a piece-placement field describes, if it is well formed.
pub open spec fn parse_placement(s: Seq<char>) -> Option<Board> {
    placement_scan(s, 0, 7, 0, empty_board())
}

/// Every set bit of every bitboard lies on a square strictly above `t`.
pub open spec fn bits_above(b: Board, t: int) -> bool {
    forall|j: int, s: u64|
        0 <= j < 12 && s < 64 && #[trigger] bit64(b.nth_bb(j), s) ==> s as int > t
}

/// Looks up the side and piece kind a FEN letter stands for.
fn piece_of_char_exec(c: char) -> (r: Option<(Player, Pieces)>)
    ensures
        r == piece_of_char(c),
{
    match c {
        'P' => Some((Player::White, Pieces::Pawn)),
        'R' => Some((Player::White, Pieces::Rook)),
        'N' => Some((Player::White, Pieces::Knight)),
        'B' => Some((Player::White, Pieces::Bishop)),
        'Q' => Some((Player::White, Pieces::Queen)),
        'K' => Some((Player::White, Pieces::King)),
        'p' => Some((Player::Black, Pieces::Pawn)),
        'r' => Some((Player::Black, Pieces::Rook)),
        'n' => Some((Player::Black, Pieces::Knight)),
        'b' => Some((Player::Black, Pieces::Bishop)),
        'q' => Some((Player::Black, Pieces::Queen)),
        'k' => Some((Player::Black, Pieces::King)),
        _ => None,
    }
}

impl Board {
    /// Reads the piece-placement field — the first space-separated field —
    /// of a FEN string. Malformed placements are rejected; a well-formed
    /// one yields a board whose bitboards are disjoint.
    pub fn from_fen(fen: &str) -> (r: Result<Self, &'static str>)
        ensures
            r is Ok <==> parse_placement(
                crate::text::split_spaces(fen@)[0],
            ) is Some,
            r matches Ok(b) ==> Some(b) == parse_placement(crate::text::split_spaces(fen@)[0])
                && b.disjoint(),
    {
        let chars = crate::text::chars_of(fen);
        let fields = crate::text::split_fields(chars);
        let field = &fields[0];
        proof {
            assert(field@ == crate::text::split_spaces(fen@)[0]);
        }

        let mut board = Board {
            white_pawns: BitBoard { bitboard: 0u64 },
            white_rooks: BitBoard { bitboard: 0u64 },
            white_knights: BitBoard { bitboard: 0u64 },
            white_bishops: BitBoard { bitboard: 0u64 },
            white_queens: BitBoard { bitboard: 0u64 },
            white_kings: BitBoard { bitboard: 0u64 },
            black_pawns: BitBoard { bitboard: 0u64 },
            black_rooks: BitBoard { bitboard: 0u64 },
            black_knights: BitBoard { bitboard: 0u64 },
            black_bishops: BitBoard { bitboard: 0u64 },
            black_queens: BitBoard { bitboard: 0u64 },
            black_kings: BitBoard { bitboard: 0u64 },
        };
        proof {
            assert forall|j: int, s: u64|
                0 <= j < 12 && s < 64 implies !(#[trigger] bit64(board.nth_bb(j), s)) by {
                crate::bits::lemma_zero_bit(s);
            }
        }

        let mut rank: u32 = 7;
        let mut file: u32 = 0;
        let mut idx: usize = 0;
        while idx < field.len()
            invariant
                field@ == crate::text::split_spaces(fen@)[0],
                idx <= field@.len(),
                rank <= 7,
                file <= 8,
                parse_placement(field@) == placement_scan(
                    field@,
                    idx as int,
                    rank as int,
                    file as int,
                    board,
                ),
                board.disjoint(),
                bits_above(board, 8 * (rank as int) + 7 - (file as int)),
            decreases field@.len() - idx,
        {
            let c = field[idx];
            proof {
                assert(field@[idx as int] == c);
            }
            if c == '/' {
                if file == 8 && rank > 0 {
                    rank = rank - 1;
                    file = 0;
                } else {
                    proof {
                        assert(placement_scan(
                            field@,
                            idx as int,
                            rank as int,
                            file as int,
                            board,
                        ) is None);
                    }
                    return Err("Symbol not recognized");
                }
            } else if '1' <= c && c <= '8' {
                let d = (c as u32) - ('0' as u32);
                if file + d <= 8 {
                    file = file + d;
                } else {
                    proof {
                        assert(placement_scan(
                            field@,
                            idx as int,
                            rank as int,
                            file as int,
                            board,
                        ) is None);
                    }
                    return Err("Symbol not recognized");
                }
            } else {
                match piece_of_char_exec(c) {
                    Some((pl, pc)) => {
                        if file < 8 {
                            let sq = 8 * rank + 7 - file;
                            proof {
                                assert(forall|j: int|
                                    0 <= j < 12 ==> !bit64(#[trigger] board.nth_bb(j), sq as u64));
                                lemma_xor_bit_bits(board, pl, pc, sq as u64);
                                lemma_xor_keeps_disjoint(board, pl, pc, sq as u64);
                            }
                            let _ = board.flip_piece(pl, pc, sq as i32);
                            file = file + 1;
                        } else {
                            return Err("Symbol not recognized");
                        }
                    },
                    None => {
                        return Err("Symbol not recognized");
                    },
                }
            }
            idx = idx + 1;
        }
        if rank == 0 && file == 8 {
            Ok(board)
        } else {
            Err("Symbol not recognized")
        }
    }
}

/// Byte-reverses `x`.
fn bswap64(x: u64) -> (r: u64)
    ensures
        r == byte_reverse(x),
{
    ((x & 0xffu64) << 56u64) | ((x & 0xff00u64) << 40u64) | ((x & 0xff0000u64) << 24u64) | ((x
        & 0xff000000u64) << 8u64) | ((x >> 8u64) & 0xff000000u64) | ((x >> 24u64) & 0xff0000u64) | (
    (x >> 40u64) & 0xff00u64) | (x >> 56u64)
}

/// Replacing the `i`-th bitboard changes that bitboard and no other.
pub proof fn lemma_with_nth_bb(b: Board, i: int, v: u64)
    requires
        0 <= i < 12,
    ensures
        forall|j: int|
            0 <= j < 12 ==> #[trigger] b.with_nth_bb(i, v).nth_bb(j) == if j == i {
                v
            } else {
                b.nth_bb(j)
            },
{
}

/// Mirroring the placement twice gives the placement back.
pub proof fn lemma_flip_involution(b: Board)
    ensures
        b.spec_flip().spec_flip() == b,
{
    lemma_byte_reverse_involution(b.white_pawns.bitboard);
    lemma_byte_reverse_involution(b.white_rooks.bitboard);
    lemma_byte_reverse_involution(b.white_knights.bitboard);
    lemma_byte_reverse_involution(b.white_bishops.bitboard);
    lemma_byte_reverse_involution(b.white_queens.bitboard);
    lemma_byte_reverse_involution(b.white_kings.bitboard);
    lemma_byte_reverse_involution(b.black_pawns.bitboard);
    lemma_byte_reverse_involution(b.black_rooks.bitboard);
    lemma_byte_reverse_involution(b.black_knights.bitboard);
    lemma_byte_reverse_involution(b.black_bishops.bitboard);
    lemma_byte_reverse_involution(b.black_queens.bitboard);
    lemma_byte_reverse_involution(b.black_kings.bitboard);
}

/// Mirroring the placement moves the piece on square `s` to square `s ^ 56`
/// and keeps the twelve bitboards disjoint.
pub proof fn lemma_flip_disjoint(b: Board)
    requires
        b.disjoint(),
    ensures
        b.spec_flip().disjoint(),
{
    let fb = b.spec_flip();
    assert forall|i: int, j: int, s: u64|
        0 <= i < 12 && 0 <= j < 12 && i != j && s < 64 implies !(#[trigger] bit64(fb.nth_bb(i), s)
        && #[trigger] bit64(fb.nth_bb(j), s)) by {
        assert(s < 64 ==> (s ^ 56u64) < 64) by (bit_vector);
        lemma_byte_reverse_bit(b.nth_bb(i), s);
        lemma_byte_reverse_bit(b.nth_bb(j), s);
        assert(fb.nth_bb(i) == byte_reverse(b.nth_bb(i)));
        assert(fb.nth_bb(j) == byte_reverse(b.nth_bb(j)));
    }
}

/// Toggling one square of one bitboard changes that bit and no other, on
/// no other bitboard.
pub proof fn lemma_xor_bit_bits(b: Board, pl: Player, pc: Pieces, s: u64)
    requires
        s < 64,
    ensures
        forall|j: int, t: u64|
            0 <= j < 12 && t < 64 ==> #[trigger] bit64(b.spec_xor_bit(pl, pc, s).nth_bb(j), t) == (
            if j == bb_index(pl, pc) && t == s {
                !bit64(b.nth_bb(j), t)
            } else {
                bit64(b.nth_bb(j), t)
            }),
{
    let i = bb_index(pl, pc);
    lemma_with_nth_bb(b, i, b.spec_bb(pl, pc) ^ (1u64 << s));
    assert forall|j: int, t: u64|
        0 <= j < 12 && t < 64 implies #[trigger] bit64(b.spec_xor_bit(pl, pc, s).nth_bb(j), t) == (
    if j == i && t == s {
        !bit64(b.nth_bb(j), t)
    } else {
        bit64(b.nth_bb(j), t)
    }) by {
        crate::bits::lemma_xor_single_bit(b.nth_bb(i), s, t);
    }
}

/// Toggling a square keeps the bitboards disjoint when that square either
/// carries the toggled piece (a lift) or carries nothing at all (a drop).
pub proof fn lemma_xor_keeps_disjoint(b: Board, pl: Player, pc: Pieces, s: u64)
    requires
        b.disjoint(),
        s < 64,
        bit64(b.spec_bb(pl, pc), s) || (forall|j: int|
            0 <= j < 12 ==> !bit64(#[trigger] b.nth_bb(j), s)),
    ensures
        b.spec_xor_bit(pl, pc, s).disjoint(),
{
    let nb = b.spec_xor_bit(pl, pc, s);
    lemma_xor_bit_bits(b, pl, pc, s);
    assert forall|i: int, j: int, t: u64|
        0 <= i < 12 && 0 <= j < 12 && i != j && t < 64 implies !(#[trigger] bit64(nb.nth_bb(i), t)
        && #[trigger] bit64(nb.nth_bb(j), t)) by {
        assert(!(bit64(b.nth_bb(i), t) && bit64(b.nth_bb(j), t)));
    }
}

/// A square is occupied exactly when some bitboard claims it.
pub proof fn lemma_occupied_bit(b: Board, t: u64)
    requires
        t < 64,
    ensures
        bit64(b.spec_occupied(), t) <==> exists|j: int| 0 <= j < 12 && bit64(#[trigger] b.nth_bb(j), t),
{
    let w = b.spec_side_mask(Player::White);
    let bl = b.spec_side_mask(Player::Black);
    crate::bits::lemma_or_bit(w, bl, t);
    lemma_side_mask_bit(b, Player::White, t);
    lemma_side_mask_bit(b, Player::Black, t);
    if bit64(b.spec_occupied(), t) {
        if bit64(w, t) {
            let pc = choose|pc: Pieces| bit64(b.spec_bb(Player::White, pc), t);
            assert(bit64(b.nth_bb(bb_index(Player::White, pc)), t));
        } else {
            let pc = choose|pc: Pieces| bit64(b.spec_bb(Player::Black, pc), t);
            assert(bit64(b.nth_bb(bb_index(Player::Black, pc)), t));
        }
    }
    if exists|j: int| 0 <= j < 12 && bit64(#[trigger] b.nth_bb(j), t) {
        let j = choose|j: int| 0 <= j < 12 && bit64(#[trigger] b.nth_bb(j), t);
        if j < 6 {
            assert(bit64(b.spec_bb(Player::White, piece_of_index(j)), t));
        } else {
            assert(bit64(b.spec_bb(Player::Black, piece_of_index(j - 6)), t));
        }
    }
}

/// The piece kind at a position of the fixed bitboard order.
pub open spec fn piece_of_index(i: int) -> Pieces {
    if i == 0 {
        Pieces::Pawn
    } else if i == 1 {
        Pieces::Rook
    } else if i == 2 {
        Pieces::Knight
    } else if i == 3 {
        Pieces::Bishop
    } else if i == 4 {
        Pieces::Queen
    } else {
        Pieces::King
    }
}

/// A side's mask claims a square exactly when one of its six bitboards
/// does.
pub proof fn lemma_side_mask_bit(b: Board, pl: Player, t: u64)
    requires
        t < 64,
    ensures
        bit64(b.spec_side_mask(pl), t) <==> exists|pc: Pieces| bit64(#[trigger] b.spec_bb(pl, pc), t),
{
    let p = b.spec_bb(pl, Pieces::Pawn);
    let r = b.spec_bb(pl, Pieces::Rook);
    let n = b.spec_bb(pl, Pieces::Knight);
    let bi = b.spec_bb(pl, Pieces::Bishop);
    let q = b.spec_bb(pl, Pieces::Queen);
    let k = b.spec_bb(pl, Pieces::King);
    crate::bits::lemma_or_bit(p, r, t);
    crate::bits::lemma_or_bit(p | r, n, t);
    crate::bits::lemma_or_bit(p | r | n, bi, t);
    crate::bits::lemma_or_bit(p | r | n | bi, q, t);
    crate::bits::lemma_or_bit(p | r | n | bi | q, k, t);
    assert(b.spec_side_mask(pl) == p | r | n | bi | q | k);
    if bit64(b.spec_side_mask(pl), t) {
        if bit64(p, t) {
            assert(bit64(b.spec_bb(pl, Pieces::Pawn), t));
        } else if bit64(r, t) {
            assert(bit64(b.spec_bb(pl, Pieces::Rook), t));
        } else if bit64(n, t) {
            assert(bit64(b.spec_bb(pl, Pieces::Knight), t));
        } else if bit64(bi, t) {
            assert(bit64(b.spec_bb(pl, Pieces::Bishop), t));
        } else if bit64(q, t) {
            assert(bit64(b.spec_bb(pl, Pieces::Queen), t));
        } else {
            assert(bit64(b.spec_bb(pl, Pieces::King), t));
        }
    }
}

/// On a board with disjoint bitboards, the scan of `spec_piece_at` reports
/// a side and piece kind exactly when their bitboard claims the square, and
/// reports nothing exactly when no bitboard does.
pub proof fn lemma_piece_at_bit(b: Board, s: u64)
    requires
        b.disjoint(),
        s < 64,
    ensures
        forall|pl: Player, pc: Pieces|
            b.spec_piece_at(s) == Some((pl, pc)) <==> bit64(#[trigger] b.spec_bb(pl, pc), s),
        b.spec_piece_at(s) is None <==> forall|i: int| 0 <= i < 12 ==> !bit64(#[trigger] b.nth_bb(i), s),
{
    assert forall|pl: Player, pc: Pieces|
        bit64(#[trigger] b.spec_bb(pl, pc), s) implies b.spec_piece_at(s) == Some((pl, pc)) by {
        let i = bb_index(pl, pc);
        assert(b.spec_bb(pl, pc) == b.nth_bb(i));
        assert forall|j: int| 0 <= j < 12 && j != i implies !(#[trigger] bit64(
            b.nth_bb(j),
            s,
        )) by {
            assert(0 <= i < 12);
            assert(!(bit64(b.nth_bb(i), s) && bit64(b.nth_bb(j), s)));
        }
        assert(i == 0 || !bit64(b.nth_bb(0), s));
        assert(i == 1 || !bit64(b.nth_bb(1), s));
        assert(i == 2 || !bit64(b.nth_bb(2), s));
        assert(i == 3 || !bit64(b.nth_bb(3), s));
        assert(i == 4 || !bit64(b.nth_bb(4), s));
        assert(i == 5 || !bit64(b.nth_bb(5), s));
        assert(i == 6 || !bit64(b.nth_bb(6), s));
        assert(i == 7 || !bit64(b.nth_bb(7), s));
        assert(i == 8 || !bit64(b.nth_bb(8), s));
        assert(i == 9 || !bit64(b.nth_bb(9), s));
        assert(i == 10 || !bit64(b.nth_bb(10), s));
        assert(i == 11 || !bit64(b.nth_bb(11), s));
    }
    if b.spec_piece_at(s) is Some {
        let (pl, pc) = b.spec_piece_at(s)->0;
        assert(bit64(b.spec_bb(pl, pc), s));
    }
}

} // verus!
