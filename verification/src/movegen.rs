//! Pseudo-legal move generation on the relative board.
//!
//! Everything here works from the side to move's own seat: its pawns push
//! toward higher ranks. Knight and king attacks come from closed-form mask
//! arithmetic; sliding pieces walk rays square by square until they leave
//! the board or strike a blocker. A blocker square is part of the ray — the
//! caller masks its own pieces away and keeps captures.

use crate::bits::bit64;
use crate::bits::lemma_mask_bit;
use crate::bits::lemma_or_basics;
use crate::bits::lemma_and_bit;
use crate::bits::lemma_not_bit;
use crate::bits::lemma_shl_bit;
use crate::bits::test_bit;
use crate::board::Board;
use crate::board::Pieces;
use crate::board::Player;
use vstd::prelude::*;
use vstd::string::StrSliceExecFns;
use vstd::string::StringExecFns;

verus! {

/// Mask of every square off the queenside edge file (file index 7).
pub const NOT_A_FILE: u64 = 0x7f7f7f7f7f7f7f7f;

/// Mask of every square off the kingside edge file (file index 0).
pub const NOT_H_FILE: u64 = 0xfefefefefefefefe;

/// Mask of every square off the two queenside edge files.
pub const NOT_AB_FILE: u64 = 0x3f3f3f3f3f3f3f3f;

/// Mask of every square off the two kingside edge files.
pub const NOT_GH_FILE: u64 = 0xfcfcfcfcfcfcfcfc;

/// One move: the piece kind that moves, origin and target squares, an
/// optional promotion kind, and the en-passant flag.
#[derive(Debug, Copy, Clone, PartialEq, Eq)]
pub struct Move {
    pub piece: Pieces,
    pub from: u32,
    pub to: u32,
    pub promotion: Option<Pieces>,
    pub ep: bool,
}

/// The promotion kind a move-string letter names.
pub open spec fn promo_of_char(c: char) -> Option<Pieces> {
    if c == 'q' {
        Some(Pieces::Queen)
    } else if c == 'r' {
        Some(Pieces::Rook)
    } else if c == 'n' {
        Some(Pieces::Knight)
    } else if c == 'b' {
        Some(Pieces::Bishop)
    } else {
        None
    }
}

/// The letter of a promotion kind.
pub open spec fn promo_letter(pc: Pieces) -> char {
    match pc {
        Pieces::Pawn => 'p',
        Pieces::Rook => 'r',
        Pieces::Knight => 'n',
        Pieces::Bishop => 'b',
        Pieces::Queen => 'q',
        Pieces::King => 'k',
    }
}

/// The characters a promotion field appends to a move string.
pub open spec fn promo_chars(p: Option<Pieces>) -> Seq<char> {
    match p {
        Some(pc) => seq![promo_letter(pc)],
        None => Seq::empty(),
    }
}

/// Reads a move string against a position: two coordinates, an optional
/// promotion letter; the moving piece kind is sampled from the board at
/// the origin, and the en-passant flag inferred from the position's
/// target square.
pub open spec fn parse_lan(s: Seq<char>, st: crate::game::GameState) -> Option<Move> {
    if s.len() != 4 && s.len() != 5 {
        None
    } else {
        let fo = crate::game::alg_square(s.subrange(0, 2), st.player);
        let t = crate::game::alg_square(s.subrange(2, 4), st.player);
        if fo is None || t is None {
            None
        } else {
            let from = fo->0;
            let to = t->0;
            let promo = if s.len() == 5 {
                promo_of_char(s[4])
            } else {
                None
            };
            if s.len() == 5 && promo is None {
                None
            } else {
                match st.relative_board.spec_piece_at(from as u64) {
                    None => None,
                    Some((side, piece)) => {
                        let ep = piece == Pieces::Pawn && st.ep_square == Some(to) && (to == from
                            + 7 || to == from + 9);
                        Some(Move { piece: piece, from: from, to: to, promotion: promo, ep: ep })
                    },
                }
            }
        }
    }
}

impl Move {
    /// Reads a move string against a position: coordinates, an optional
    /// promotion letter, the piece sampled from the board at the origin,
    /// the en-passant flag inferred from the position's target square.
    pub fn from_lan(lan: &str, state: &crate::game::GameState) -> (r: Result<Self, &'static str>)
        ensures
            r is Ok <==> parse_lan(lan@, *state) is Some,
            r matches Ok(m) ==> Some(m) == parse_lan(lan@, *state),
    {
        let n = lan.unicode_len();
        if n < 4 || n > 5 {
            return Err("Not a valid move");
        }
        let c0 = lan.get_char(0);
        let c1 = lan.get_char(1);
        let c2 = lan.get_char(2);
        let c3 = lan.get_char(3);
        proof {
            assert(lan@.subrange(0, 2) =~= seq![lan@[0], lan@[1]]);
            assert(lan@.subrange(2, 4) =~= seq![lan@[2], lan@[3]]);
        }
        let from = match crate::game::alg_square_chars(c0, c1, state.get_player()) {
            Some(x) => x,
            None => {
                return Err("Could not convert start to LAN");
            },
        };
        let to = match crate::game::alg_square_chars(c2, c3, state.get_player()) {
            Some(x) => x,
            None => {
                return Err("Could not convert target to LAN");
            },
        };

        let mut promotion: Option<Pieces> = None;
        if n == 5 {
            promotion = match lan.get_char(4) {
                'q' => Some(Pieces::Queen),
                'r' => Some(Pieces::Rook),
                'n' => Some(Pieces::Knight),
                'b' => Some(Pieces::Bishop),
                _ => {
                    return Err("Not a valid move");
                },
            };
        }

        let piece = match state.get_relative_board().get_piece(from as i32) {
            Some((_, x)) => x,
            None => {
                return Err("Square is not occupied");
            },
        };

        let at_ep = match state.get_ep() {
            Some(e) => e == to,
            None => false,
        };
        let ep = piece == Pieces::Pawn && at_ep && (to == from + 7 || to == from + 9);

        Ok(Move { piece: piece, from: from, to: to, promotion: promotion, ep: ep })
    }

    /// Writes a move as two coordinates from the side to move's seat, a
    /// promotion letter appended when the move promotes; square indices
    /// past the board are rejected.
    pub fn to_lan(m: &Move, state: &crate::game::GameState) -> (r: Result<String, &'static str>)
        ensures
            r is Ok <==> m.from < 64 && m.to < 64,
            r matches Ok(x) ==> x@ == seq![
                crate::game::file_char_of(m.from),
                crate::game::rank_char_of(m.from, state.player),
                crate::game::file_char_of(m.to),
                crate::game::rank_char_of(m.to, state.player),
            ] + promo_chars(m.promotion),
    {
        let mut from_s = match state.shift_to_algebraic(m.from) {
            Some(x) => x,
            None => {
                return Err("Not a valid move");
            },
        };
        let to_s = match state.shift_to_algebraic(m.to) {
            Some(x) => x,
            None => {
                return Err("Not a valid move");
            },
        };
        from_s.append(to_s.as_str());
        proof {
            reveal_strlit("q");
            reveal_strlit("r");
            reveal_strlit("n");
            reveal_strlit("b");
            reveal_strlit("p");
            reveal_strlit("k");
        }
        match m.promotion {
            Some(Pieces::Queen) => from_s.append("q"),
            Some(Pieces::Rook) => from_s.append("r"),
            Some(Pieces::Knight) => from_s.append("n"),
            Some(Pieces::Bishop) => from_s.append("b"),
            Some(Pieces::Pawn) => from_s.append("p"),
            Some(Pieces::King) => from_s.append("k"),
            None => {},
        }
        proof {
            assert(from_s@ =~= seq![
                crate::game::file_char_of(m.from),
                crate::game::rank_char_of(m.from, state.player),
                crate::game::file_char_of(m.to),
                crate::game::rank_char_of(m.to, state.player),
            ] + promo_chars(m.promotion));
        }
        Ok(from_s)
    }
}

/// A rank or file direction for rook rays.
#[derive(Copy, Clone)]
pub enum Dir {
    U,
    D,
    R,
    L,
}

/// A diagonal direction for bishop rays.
#[derive(Copy, Clone)]
pub enum DiagDir {
    NE,
    NW,
    SE,
    SW,
}

/// Rank step of a rook-ray direction.
pub open spec fn dir_dr(d: Dir) -> int {
    match d {
        Dir::U => 1,
        Dir::D => -1,
        Dir::R => 0,
        Dir::L => 0,
    }
}

/// File step of a rook-ray direction.
pub open spec fn dir_df(d: Dir) -> int {
    match d {
        Dir::U => 0,
        Dir::D => 0,
        Dir::R => 1,
        Dir::L => -1,
    }
}

/// Rank step of a bishop-ray direction.
pub open spec fn diag_dr(d: DiagDir) -> int {
    match d {
        DiagDir::NE => 1,
        DiagDir::NW => 1,
        DiagDir::SE => -1,
        DiagDir::SW => -1,
    }
}

/// File step of a bishop-ray direction.
pub open spec fn diag_df(d: DiagDir) -> int {
    match d {
        DiagDir::NE => 1,
        DiagDir::NW => -1,
        DiagDir::SE => 1,
        DiagDir::SW => -1,
    }
}

/// Squares a pawn set attacks, pushing toward higher ranks: one step up
/// with the file index falling, one with it rising; the edge-file masks
/// stop wraparound.
pub open spec fn pawn_attacks_of(pawns: u64) -> u64 {
    ((pawns & NOT_H_FILE) << 7u64) | ((pawns & NOT_A_FILE) << 9u64)
}

/// Squares a pawn set attacks when its pawns push toward lower ranks — the
/// opponent's pawns seen from the mover's seat.
pub open spec fn pawn_attacks_down_of(pawns: u64) -> u64 {
    ((pawns & NOT_A_FILE) >> 7u64) | ((pawns & NOT_H_FILE) >> 9u64)
}

/// Squares a knight set attacks: the eight jumps, wraparound stopped by the
/// edge-file masks.
pub open spec fn knight_attacks_of(knights: u64) -> u64 {
    ((knights & NOT_A_FILE) << 17u64) | ((knights & NOT_A_FILE) >> 15u64) | ((knights & NOT_AB_FILE)
        << 10u64) | ((knights & NOT_AB_FILE) >> 6u64) | ((knights & NOT_H_FILE) << 15u64) | ((
    knights & NOT_H_FILE) >> 17u64) | ((knights & NOT_GH_FILE) << 6u64) | ((knights & NOT_GH_FILE)
        >> 10u64)
}

/// Squares a king set attacks: the eight neighbours.
pub open spec fn king_attacks_of(kings: u64) -> u64 {
    king_lateral(kings) | ((king_lateral(kings) | kings) << 8u64) | ((king_lateral(kings) | kings)
        >> 8u64)
}

/// The two sideways neighbours of a king set.
pub open spec fn king_lateral(kings: u64) -> u64 {
    ((kings & NOT_A_FILE) << 1u64) | ((kings & NOT_H_FILE) >> 1u64)
}

/// The squares of a ray that starts on rank `r`, file `f` (inclusive) and
/// steps by `(dr, df)`, walking at most `fuel` squares. The walk ends when
/// it leaves the board or right after it strikes a blocker, which is
/// included.
pub open spec fn ray_from(r: int, f: int, dr: int, df: int, blockers: u64, fuel: nat) -> u64
    decreases fuel,
{
    if fuel == 0 || !(0 <= r < 8 && 0 <= f < 8) {
        0u64
    } else {
        let sq = (r * 8 + f) as u64;
        if bit64(blockers, sq) {
            1u64 << sq
        } else {
            (1u64 << sq) | ray_from(r + dr, f + df, dr, df, blockers, (fuel - 1) as nat)
        }
    }
}

/// The full ray cast from square `from` (exclusive) in direction `(dr, df)`.
pub open spec fn ray_cast(from: u64, blockers: u64, dr: int, df: int) -> u64 {
    ray_from((from as int) / 8 + dr, (from as int) % 8 + df, dr, df, blockers, 8)
}

/// Union of the four rook rays cast from one square.
pub open spec fn rook_rays(sq: u64, blockers: u64) -> u64 {
    ray_cast(sq, blockers, 1, 0) | ray_cast(sq, blockers, -1, 0) | ray_cast(sq, blockers, 0, -1)
        | ray_cast(sq, blockers, 0, 1)
}

/// Union of the four bishop rays cast from one square.
pub open spec fn bishop_rays(sq: u64, blockers: u64) -> u64 {
    ray_cast(sq, blockers, 1, 1) | ray_cast(sq, blockers, 1, -1) | ray_cast(sq, blockers, -1, 1)
        | ray_cast(sq, blockers, -1, -1)
}

/// Union of the eight queen rays cast from one square.
pub open spec fn queen_rays(sq: u64, blockers: u64) -> u64 {
    rook_rays(sq, blockers) | bishop_rays(sq, blockers)
}

/// Rook attacks of the set `rooks` against blockers `!free`, collected over
/// the squares below `i`.
pub open spec fn rook_attacks_upto(rooks: u64, free: u64, i: int) -> u64
    decreases i,
{
    if i <= 0 {
        0u64
    } else {
        rook_attacks_upto(rooks, free, i - 1) | (if bit64(rooks, (i - 1) as u64) {
            rook_rays((i - 1) as u64, !free)
        } else {
            0u64
        })
    }
}

/// Bishop attacks of the set `bishops`, collected over the squares below `i`.
pub open spec fn bishop_attacks_upto(bishops: u64, free: u64, i: int) -> u64
    decreases i,
{
    if i <= 0 {
        0u64
    } else {
        bishop_attacks_upto(bishops, free, i - 1) | (if bit64(bishops, (i - 1) as u64) {
            bishop_rays((i - 1) as u64, !free)
        } else {
            0u64
        })
    }
}

/// Queen attacks of the set `queens`, collected over the squares below `i`.
pub open spec fn queen_attacks_upto(queens: u64, free: u64, i: int) -> u64
    decreases i,
{
    if i <= 0 {
        0u64
    } else {
        queen_attacks_upto(queens, free, i - 1) | (if bit64(queens, (i - 1) as u64) {
            queen_rays((i - 1) as u64, !free)
        } else {
            0u64
        })
    }
}

/// Every square attacked by the rook set.
pub open spec fn rook_attacks_of(rooks: u64, free: u64) -> u64 {
    rook_attacks_upto(rooks, free, 64)
}

/// Every square attacked by the bishop set.
pub open spec fn bishop_attacks_of(bishops: u64, free: u64) -> u64 {
    bishop_attacks_upto(bishops, free, 64)
}

/// Every square attacked by the queen set.
pub open spec fn queen_attacks_of(queens: u64, free: u64) -> u64 {
    queen_attacks_upto(queens, free, 64)
}

/// Every square attacked by one side, its pawns pushing toward higher
/// ranks: the union of the six piece-kind attack sets.
pub open spec fn attacks_of(b: Board, pl: Player) -> u64 {
    pawn_attacks_of(b.spec_bb(pl, Pieces::Pawn)) | knight_attacks_of(
        b.spec_bb(pl, Pieces::Knight),
    ) | rook_attacks_of(b.spec_bb(pl, Pieces::Rook), !b.spec_occupied()) | bishop_attacks_of(
        b.spec_bb(pl, Pieces::Bishop),
        !b.spec_occupied(),
    ) | queen_attacks_of(b.spec_bb(pl, Pieces::Queen), !b.spec_occupied()) | king_attacks_of(
        b.spec_bb(pl, Pieces::King),
    )
}

/// Every square attacked by one side whose pawns push toward lower ranks —
/// the opponent, seen from the mover's seat.
pub open spec fn attacks_down_of(b: Board, pl: Player) -> u64 {
    pawn_attacks_down_of(b.spec_bb(pl, Pieces::Pawn)) | knight_attacks_of(
        b.spec_bb(pl, Pieces::Knight),
    ) | rook_attacks_of(b.spec_bb(pl, Pieces::Rook), !b.spec_occupied()) | bishop_attacks_of(
        b.spec_bb(pl, Pieces::Bishop),
        !b.spec_occupied(),
    ) | queen_attacks_of(b.spec_bb(pl, Pieces::Queen), !b.spec_occupied()) | king_attacks_of(
        b.spec_bb(pl, Pieces::King),
    )
}

/// The move generator: stateless; every operation takes the board it works
/// on.
pub struct MoveGen;

impl MoveGen {
    /// Walks one ray in exec code, mirroring `ray_from`.
    fn ray_walk(r: i32, f: i32, dr: i32, df: i32, blockers: u64, fuel: u32) -> (ret: u64)
        requires
            -1 <= dr <= 1,
            -1 <= df <= 1,
            -8 <= r <= 8,
            -8 <= f <= 8,
            fuel <= 8,
        ensures
            ret == ray_from(r as int, f as int, dr as int, df as int, blockers, fuel as nat),
        decreases fuel,
    {
        if fuel == 0 {
            return 0;
        }
        if r < 0 || r >= 8 || f < 0 || f >= 8 {
            return 0;
        }
        let sq = (r * 8 + f) as u64;
        proof {
            lemma_mask_bit(blockers, sq);
        }
        let m = 1u64 << sq;
        if blockers & m != 0 {
            m
        } else {
            m | Self::ray_walk(r + dr, f + df, dr, df, blockers, fuel - 1)
        }
    }

    /// Casts the ray from `from` in a rank or file direction against
    /// `blocker_mask`; the first blocker square is included.
    fn ray_mask(from: u32, blocker_mask: u64, direction: Dir) -> (ret: u64)
        requires
            from < 64,
        ensures
            ret == ray_cast(from as u64, blocker_mask, dir_dr(direction), dir_df(direction)),
    {
        let (dr, df): (i32, i32) = match direction {
            Dir::U => (1, 0),
            Dir::D => (-1, 0),
            Dir::R => (0, 1),
            Dir::L => (0, -1),
        };
        Self::ray_walk((from / 8) as i32 + dr, (from % 8) as i32 + df, dr, df, blocker_mask, 8)
    }

    /// Casts the ray from `from` in a diagonal direction against
    /// `blocker_mask`; the first blocker square is included.
    fn diag_ray_mask(from: u32, blocker_mask: u64, direction: DiagDir) -> (ret: u64)
        requires
            from < 64,
        ensures
            ret == ray_cast(from as u64, blocker_mask, diag_dr(direction), diag_df(direction)),
    {
        let (dr, df): (i32, i32) = match direction {
            DiagDir::NE => (1, 1),
            DiagDir::NW => (1, -1),
            DiagDir::SE => (-1, 1),
            DiagDir::SW => (-1, -1),
        };
        Self::ray_walk((from / 8) as i32 + dr, (from % 8) as i32 + df, dr, df, blocker_mask, 8)
    }

    /// Every square attacked by `player` on `board`, its pawns pushing
    /// toward higher ranks — the side to move's own attack set.
    pub fn get_all_attacks(board: &Board, player: Player) -> (r: u64)
        ensures
            r == attacks_of(*board, player),
    {
        let free_mask = board.get_freesq_mask();
        let pawns = board.get_pieceboard(player, Pieces::Pawn).bitboard;
        let knights = board.get_pieceboard(player, Pieces::Knight).bitboard;
        let rooks = board.get_pieceboard(player, Pieces::Rook).bitboard;
        let bishops = board.get_pieceboard(player, Pieces::Bishop).bitboard;
        let queens = board.get_pieceboard(player, Pieces::Queen).bitboard;
        let king = board.get_pieceboard(player, Pieces::King).bitboard;
        MoveGen::get_pawn_attacks(pawns) | MoveGen::get_knight_attacks(knights)
            | MoveGen::get_rook_attacks(rooks, free_mask) | MoveGen::get_bishop_attacks(
            bishops,
            free_mask,
        ) | MoveGen::get_queen_attacks(queens, free_mask) | MoveGen::get_king_attacks(king)
    }

    /// Every square attacked by `player` on `board` when its pawns push
    /// toward lower ranks — the opponent's attack set, seen from the
    /// mover's seat.
    pub(crate) fn get_all_attacks_down(board: &Board, player: Player) -> (r: u64)
        ensures
            r == attacks_down_of(*board, player),
    {
        let free_mask = board.get_freesq_mask();
        let pawns = board.get_pieceboard(player, Pieces::Pawn).bitboard;
        let knights = board.get_pieceboard(player, Pieces::Knight).bitboard;
        let rooks = board.get_pieceboard(player, Pieces::Rook).bitboard;
        let bishops = board.get_pieceboard(player, Pieces::Bishop).bitboard;
        let queens = board.get_pieceboard(player, Pieces::Queen).bitboard;
        let king = board.get_pieceboard(player, Pieces::King).bitboard;
        let pawn_att = ((pawns & NOT_A_FILE) >> 7u64) | ((pawns & NOT_H_FILE) >> 9u64);
        pawn_att | MoveGen::get_knight_attacks(knights) | MoveGen::get_rook_attacks(
            rooks,
            free_mask,
        ) | MoveGen::get_bishop_attacks(bishops, free_mask) | MoveGen::get_queen_attacks(
            queens,
            free_mask,
        ) | MoveGen::get_king_attacks(king)
    }

    /// Squares the pawn set attacks, pushing toward higher ranks.
    pub fn get_pawn_attacks(pawns: u64) -> (r: u64)
        ensures
            r == pawn_attacks_of(pawns),
    {
        let mut targets = (pawns & NOT_H_FILE) << 7u64;
        targets = targets | ((pawns & NOT_A_FILE) << 9u64);
        targets
    }

    /// Squares the knight set attacks.
    pub fn get_knight_attacks(knights: u64) -> (r: u64)
        ensures
            r == knight_attacks_of(knights),
    {
        ((knights & NOT_A_FILE) << 17u64) | ((knights & NOT_A_FILE) >> 15u64) | ((knights
            & NOT_AB_FILE) << 10u64) | ((knights & NOT_AB_FILE) >> 6u64) | ((knights & NOT_H_FILE)
            << 15u64) | ((knights & NOT_H_FILE) >> 17u64) | ((knights & NOT_GH_FILE) << 6u64) | ((
        knights & NOT_GH_FILE) >> 10u64)
    }

    /// Squares the rook set attacks against the occupancy `!free_mask`.
    pub fn get_rook_attacks(rooks: u64, free_mask: u64) -> (r: u64)
        ensures
            r == rook_attacks_of(rooks, free_mask),
    {
        let mut targets = 0u64;
        let mut i: u32 = 0;
        while i < 64
            invariant
                i <= 64,
                targets == rook_attacks_upto(rooks, free_mask, i as int),
            decreases 64 - i,
        {
            if test_bit(rooks, i) {
                targets = targets | Self::rook_rays_from(i, free_mask);
            } else {
                proof {
                    lemma_or_basics(targets, 0, 0);
                }
            }
            i = i + 1;
        }
        targets
    }

    /// Union of the four rook rays from one square.
    fn rook_rays_from(sq: u32, free_mask: u64) -> (r: u64)
        requires
            sq < 64,
        ensures
            r == rook_rays(sq as u64, !free_mask),
    {
        let blockers = !free_mask;
        let ray_u = Self::ray_mask(sq, blockers, Dir::U);
        let ray_d = Self::ray_mask(sq, blockers, Dir::D);
        let ray_l = Self::ray_mask(sq, blockers, Dir::L);
        let ray_r = Self::ray_mask(sq, blockers, Dir::R);
        ray_u | ray_d | ray_l | ray_r
    }

    /// Union of the four bishop rays from one square.
    fn bishop_rays_from(sq: u32, free_mask: u64) -> (r: u64)
        requires
            sq < 64,
        ensures
            r == bishop_rays(sq as u64, !free_mask),
    {
        let blockers = !free_mask;
        let ray_ne = Self::diag_ray_mask(sq, blockers, DiagDir::NE);
        let ray_nw = Self::diag_ray_mask(sq, blockers, DiagDir::NW);
        let ray_se = Self::diag_ray_mask(sq, blockers, DiagDir::SE);
        let ray_sw = Self::diag_ray_mask(sq, blockers, DiagDir::SW);
        ray_ne | ray_nw | ray_se | ray_sw
    }

    /// Squares the bishop set attacks against the occupancy `!free_mask`.
    pub fn get_bishop_attacks(bishops: u64, free_mask: u64) -> (r: u64)
        ensures
            r == bishop_attacks_of(bishops, free_mask),
    {
        let mut targets = 0u64;
        let mut i: u32 = 0;
        while i < 64
            invariant
                i <= 64,
                targets == bishop_attacks_upto(bishops, free_mask, i as int),
            decreases 64 - i,
        {
            if test_bit(bishops, i) {
                targets = targets | Self::bishop_rays_from(i, free_mask);
            } else {
                proof {
                    lemma_or_basics(targets, 0, 0);
                }
            }
            i = i + 1;
        }
        targets
    }

    /// Squares the queen set attacks against the occupancy `!free_mask`.
    pub fn get_queen_attacks(queens: u64, free_mask: u64) -> (r: u64)
        ensures
            r == queen_attacks_of(queens, free_mask),
    {
        let mut targets = 0u64;
        let mut i: u32 = 0;
        while i < 64
            invariant
                i <= 64,
                targets == queen_attacks_upto(queens, free_mask, i as int),
            decreases 64 - i,
        {
            if test_bit(queens, i) {
                targets = targets | (Self::rook_rays_from(i, free_mask) | Self::bishop_rays_from(
                    i,
                    free_mask,
                ));
            } else {
                proof {
                    lemma_or_basics(targets, 0, 0);
                }
            }
            i = i + 1;
        }
        targets
    }

    /// Squares the king set attacks.
    pub fn get_king_attacks(king: u64) -> (r: u64)
        ensures
            r == king_attacks_of(king),
    {
        let lateral = ((king & NOT_A_FILE) << 1u64) | ((king & NOT_H_FILE) >> 1u64);
        lateral | ((lateral | king) << 8u64) | ((lateral | king) >> 8u64)
    }

    /// Turns a target mask into moves of `piece` from `from`, in rising
    /// target order.
    fn collect_moves(from: u32, targets: u64, piece: Pieces) -> (moves: Vec<Move>)
        ensures
            moves@ == collect_moves_spec(from, targets, piece),
            forall|k: int|
                0 <= k < moves@.len() ==> ((#[trigger] moves@[k]).piece == piece && moves@[k].from
                    == from && moves@[k].to < 64 && bit64(targets, moves@[k].to as u64)
                    && moves@[k].promotion is None && !moves@[k].ep),
    {
        let mut moves: Vec<Move> = Vec::new();
        let mut i: u32 = 0;
        while i < 64
            invariant
                i <= 64,
                moves@ == collect_upto(from, targets, piece, i as int),
                forall|k: int|
                    0 <= k < moves@.len() ==> ((#[trigger] moves@[k]).piece == piece
                        && moves@[k].from == from && moves@[k].to < 64 && bit64(
                        targets,
                        moves@[k].to as u64,
                    ) && moves@[k].promotion is None && !moves@[k].ep),
            decreases 64 - i,
        {
            let ghost pre = moves@;
            if test_bit(targets, i) {
                let m = Move { piece: piece, from: from, to: i, promotion: None, ep: false };
                moves.push(m);
                proof {
                    assert(moves@ =~= pre + seq![m]);
                }
            } else {
                proof {
                    assert(moves@ + Seq::<Move>::empty() =~= moves@);
                }
            }
            i = i + 1;
        }
        moves
    }

    /// Turns a pawn target mask into moves, the origin one `shift` below the
    /// target; a move onto the back rank becomes the four promotions.
    fn collect_pawn_moves(targets: u64, shift: u32) -> (moves: Vec<Move>)
        ensures
            moves@ == pawn_collect_spec(targets, shift),
            forall|k: int|
                0 <= k < moves@.len() ==> ((#[trigger] moves@[k]).piece == Pieces::Pawn
                    && !moves@[k].ep && moves@[k].to < 64 && moves@[k].to >= shift
                    && moves@[k].from as int == moves@[k].to as int - shift && bit64(
                    targets,
                    moves@[k].to as u64,
                ) && (moves@[k].promotion matches Some(p) ==> (p == Pieces::Knight || p
                    == Pieces::Bishop || p == Pieces::Rook || p == Pieces::Queen))),
    {
        let mut moves: Vec<Move> = Vec::new();
        let mut i: u32 = 0;
        while i < 64
            invariant
                i <= 64,
                moves@ == pawn_collect_upto(targets, shift, i as int),
                forall|k: int|
                    0 <= k < moves@.len() ==> ((#[trigger] moves@[k]).piece == Pieces::Pawn
                        && !moves@[k].ep && moves@[k].to < 64 && moves@[k].to >= shift
                        && moves@[k].from as int == moves@[k].to as int - shift && bit64(
                        targets,
                        moves@[k].to as u64,
                    ) && (moves@[k].promotion matches Some(p) ==> (p == Pieces::Knight || p
                        == Pieces::Bishop || p == Pieces::Rook || p == Pieces::Queen))),
            decreases 64 - i,
        {
            let ghost pre = moves@;
            if test_bit(targets, i) && i >= shift {
                let from_sq = i - shift;
                if i >= 56 {
                    let m1 = Move {
                        piece: Pieces::Pawn,
                        from: from_sq,
                        to: i,
                        promotion: Some(Pieces::Knight),
                        ep: false,
                    };
                    let m2 = Move {
                        piece: Pieces::Pawn,
                        from: from_sq,
                        to: i,
                        promotion: Some(Pieces::Bishop),
                        ep: false,
                    };
                    let m3 = Move {
                        piece: Pieces::Pawn,
                        from: from_sq,
                        to: i,
                        promotion: Some(Pieces::Rook),
                        ep: false,
                    };
                    let m4 = Move {
                        piece: Pieces::Pawn,
                        from: from_sq,
                        to: i,
                        promotion: Some(Pieces::Queen),
                        ep: false,
                    };
                    moves.push(m1);
                    moves.push(m2);
                    moves.push(m3);
                    moves.push(m4);
                    proof {
                        assert(moves@ =~= pre + seq![m1, m2, m3, m4]);
                    }
                } else {
                    let m = Move {
                        piece: Pieces::Pawn,
                        from: from_sq,
                        to: i,
                        promotion: None,
                        ep: false,
                    };
                    moves.push(m);
                    proof {
                        assert(moves@ =~= pre + seq![m]);
                    }
                }
            } else {
                proof {
                    assert(moves@ + Seq::<Move>::empty() =~= moves@);
                }
            }
            i = i + 1;
        }
        moves
    }

    /// All pawn moves of `player`: pushes, captures, promotions, and the
    /// en-passant capture onto `ep`.
    pub fn pawn_moves(board: &Board, player: Player, ep: Option<u32>) -> (moves: Vec<Move>)
        ensures
            moves@ == pawn_moves_spec(*board, player, ep),
            forall|k: int|
                0 <= k < moves@.len() ==> move_wf_board(*board, player, #[trigger] moves@[k]),
    {
        let pawns = board.get_pieceboard(player, Pieces::Pawn).bitboard;
        let free_mask = board.get_freesq_mask();
        let opp = player.other();
        let opp_piece_mask = board.get_player_mask(opp);
        let opp_pawns = board.get_pieceboard(opp, Pieces::Pawn).bitboard;
        let mut moves: Vec<Move> = Vec::new();

        let single_push = (pawns << 8u64) & free_mask;
        let mut part = Self::collect_pawn_moves(single_push, 8);
        proof {
            assert forall|k: int|
                0 <= k < part@.len() implies move_wf_board(*board, player, #[trigger] part@[k]) by {
                let m = part@[k];
                lemma_and_bit(pawns << 8u64, free_mask, m.to as u64);
                lemma_shl_bit(pawns, 8, m.to as u64);
            }
        }
        moves.append(&mut part);
        let ghost s1 = moves@;

        let double_push = ((pawns & 0xFF00u64) << 16u64) & free_mask & (free_mask << 8u64);
        let mut part = Self::collect_pawn_moves(double_push, 16);
        proof {
            assert forall|k: int|
                0 <= k < part@.len() implies move_wf_board(*board, player, #[trigger] part@[k]) by {
                let m = part@[k];
                lemma_and_bit(
                    ((pawns & 0xFF00u64) << 16u64) & free_mask,
                    free_mask << 8u64,
                    m.to as u64,
                );
                lemma_and_bit((pawns & 0xFF00u64) << 16u64, free_mask, m.to as u64);
                lemma_shl_bit(pawns & 0xFF00u64, 16, m.to as u64);
                lemma_and_bit(pawns, 0xFF00u64, (m.to - 16) as u64);
            }
        }
        moves.append(&mut part);
        let ghost s2 = moves@;

        let mut capture = ((pawns & NOT_H_FILE) << 7u64) & opp_piece_mask;
        let mut part = Self::collect_pawn_moves(capture, 7);
        proof {
            assert forall|k: int|
                0 <= k < part@.len() implies move_wf_board(*board, player, #[trigger] part@[k]) by {
                let m = part@[k];
                lemma_and_bit((pawns & NOT_H_FILE) << 7u64, opp_piece_mask, m.to as u64);
                lemma_shl_bit(pawns & NOT_H_FILE, 7, m.to as u64);
                lemma_and_bit(pawns, NOT_H_FILE, (m.to - 7) as u64);
            }
        }
        moves.append(&mut part);
        let ghost s3 = moves@;

        capture = ((pawns & NOT_A_FILE) << 9u64) & opp_piece_mask;
        let mut part = Self::collect_pawn_moves(capture, 9);
        proof {
            assert forall|k: int|
                0 <= k < part@.len() implies move_wf_board(*board, player, #[trigger] part@[k]) by {
                let m = part@[k];
                lemma_and_bit((pawns & NOT_A_FILE) << 9u64, opp_piece_mask, m.to as u64);
                lemma_shl_bit(pawns & NOT_A_FILE, 9, m.to as u64);
                lemma_and_bit(pawns, NOT_A_FILE, (m.to - 9) as u64);
            }
        }
        moves.append(&mut part);
        let ghost s4 = moves@;

        if let Some(ep_target) = ep {
            if ep_target < 64 {
                let ghost c1 = Seq::<Move>::empty();
                if ep_target >= 9 && test_bit(pawns & NOT_A_FILE, ep_target - 9) && test_bit(
                    opp_pawns,
                    ep_target - 8,
                ) {
                    let m = Move {
                        piece: Pieces::Pawn,
                        from: ep_target - 9,
                        to: ep_target,
                        promotion: None,
                        ep: true,
                    };
                    proof {
                        lemma_and_bit(pawns, NOT_A_FILE, (ep_target - 9) as u64);
                    }
                    moves.push(m);
                    proof {
                        assert(moves@ =~= s4 + seq![m]);
                    }
                }
                let ghost s5 = moves@;
                if ep_target >= 8 && test_bit(pawns & NOT_H_FILE, ep_target - 7) && test_bit(
                    opp_pawns,
                    ep_target - 8,
                ) {
                    let m = Move {
                        piece: Pieces::Pawn,
                        from: ep_target - 7,
                        to: ep_target,
                        promotion: None,
                        ep: true,
                    };
                    proof {
                        lemma_and_bit(pawns, NOT_H_FILE, (ep_target - 7) as u64);
                    }
                    moves.push(m);
                    proof {
                        assert(moves@ =~= s5 + seq![m]);
                    }
                }
            }
        }
        proof {
            assert(moves@ =~= s4 + pawn_ep_moves(*board, player, ep));
            assert(s4 + Seq::<Move>::empty() =~= s4);
        }
        moves
    }

    /// All knight moves of `player`.
    pub fn knight_moves(board: &Board, player: Player) -> (moves: Vec<Move>)
        ensures
            moves@ == knight_moves_spec(*board, player),
            forall|k: int|
                0 <= k < moves@.len() ==> move_wf_board(*board, player, #[trigger] moves@[k]),
    {
        let knights = board.get_pieceboard(player, Pieces::Knight).bitboard;
        let own = board.get_player_mask(player);
        let mut moves: Vec<Move> = Vec::new();
        let mut i: u32 = 0;
        while i < 64
            invariant
                i <= 64,
                knights == board.spec_bb(player, Pieces::Knight),
                own == board.spec_side_mask(player),
                moves@ == knight_moves_upto(*board, player, i as int),
                forall|k: int|
                    0 <= k < moves@.len() ==> move_wf_board(*board, player, #[trigger] moves@[k]),
            decreases 64 - i,
        {
            let ghost pre = moves@;
            if test_bit(knights, i) {
                let mask = 1u64 << (i as u64);
                let targets = MoveGen::get_knight_attacks(mask) & !own;
                let mut part = Self::collect_moves(i, targets, Pieces::Knight);
                moves.append(&mut part);
            } else {
                proof {
                    assert(moves@ + Seq::<Move>::empty() =~= moves@);
                }
            }
            i = i + 1;
        }
        moves
    }

    /// All rook moves of `player`.
    pub fn rook_moves(board: &Board, player: Player) -> (moves: Vec<Move>)
        ensures
            moves@ == rook_moves_spec(*board, player),
            forall|k: int|
                0 <= k < moves@.len() ==> move_wf_board(*board, player, #[trigger] moves@[k]),
    {
        let rooks = board.get_pieceboard(player, Pieces::Rook).bitboard;
        let own = board.get_player_mask(player);
        let free_mask = board.get_freesq_mask();
        let mut moves: Vec<Move> = Vec::new();
        let mut i: u32 = 0;
        while i < 64
            invariant
                i <= 64,
                rooks == board.spec_bb(player, Pieces::Rook),
                own == board.spec_side_mask(player),
                free_mask == !board.spec_occupied(),
                moves@ == rook_moves_upto(*board, player, i as int),
                forall|k: int|
                    0 <= k < moves@.len() ==> move_wf_board(*board, player, #[trigger] moves@[k]),
            decreases 64 - i,
        {
            let ghost pre = moves@;
            if test_bit(rooks, i) {
                let targets = Self::rook_rays_from(i, free_mask) & !own;
                proof {
                    crate::bits::lemma_not_not(board.spec_occupied());
                }
                let mut part = Self::collect_moves(i, targets, Pieces::Rook);
                moves.append(&mut part);
            } else {
                proof {
                    assert(moves@ + Seq::<Move>::empty() =~= moves@);
                }
            }
            i = i + 1;
        }
        moves
    }

    /// All bishop moves of `player`.
    pub fn bishop_moves(board: &Board, player: Player) -> (moves: Vec<Move>)
        ensures
            moves@ == bishop_moves_spec(*board, player),
            forall|k: int|
                0 <= k < moves@.len() ==> move_wf_board(*board, player, #[trigger] moves@[k]),
    {
        let bishops = board.get_pieceboard(player, Pieces::Bishop).bitboard;
        let own = board.get_player_mask(player);
        let free_mask = board.get_freesq_mask();
        let mut moves: Vec<Move> = Vec::new();
        let mut i: u32 = 0;
        while i < 64
            invariant
                i <= 64,
                bishops == board.spec_bb(player, Pieces::Bishop),
                own == board.spec_side_mask(player),
                free_mask == !board.spec_occupied(),
                moves@ == bishop_moves_upto(*board, player, i as int),
                forall|k: int|
                    0 <= k < moves@.len() ==> move_wf_board(*board, player, #[trigger] moves@[k]),
            decreases 64 - i,
        {
            let ghost pre = moves@;
            if test_bit(bishops, i) {
                let targets = Self::bishop_rays_from(i, free_mask) & !own;
                proof {
                    crate::bits::lemma_not_not(board.spec_occupied());
                }
                let mut part = Self::collect_moves(i, targets, Pieces::Bishop);
                moves.append(&mut part);
            } else {
                proof {
                    assert(moves@ + Seq::<Move>::empty() =~= moves@);
                }
            }
            i = i + 1;
        }
        moves
    }

    /// All queen moves of `player`.
    pub fn queen_moves(board: &Board, player: Player) -> (moves: Vec<Move>)
        ensures
            moves@ == queen_moves_spec(*board, player),
            forall|k: int|
                0 <= k < moves@.len() ==> move_wf_board(*board, player, #[trigger] moves@[k]),
    {
        let queens = board.get_pieceboard(player, Pieces::Queen).bitboard;
        let own = board.get_player_mask(player);
        let free_mask = board.get_freesq_mask();
        let mut moves: Vec<Move> = Vec::new();
        let mut i: u32 = 0;
        while i < 64
            invariant
                i <= 64,
                queens == board.spec_bb(player, Pieces::Queen),
                own == board.spec_side_mask(player),
                free_mask == !board.spec_occupied(),
                moves@ == queen_moves_upto(*board, player, i as int),
                forall|k: int|
                    0 <= k < moves@.len() ==> move_wf_board(*board, player, #[trigger] moves@[k]),
            decreases 64 - i,
        {
            let ghost pre = moves@;
            if test_bit(queens, i) {
                let targets = (Self::rook_rays_from(i, free_mask) | Self::bishop_rays_from(
                    i,
                    free_mask,
                )) & !own;
                proof {
                    crate::bits::lemma_not_not(board.spec_occupied());
                }
                let mut part = Self::collect_moves(i, targets, Pieces::Queen);
                moves.append(&mut part);
            } else {
                proof {
                    assert(moves@ + Seq::<Move>::empty() =~= moves@);
                }
            }
            i = i + 1;
        }
        moves
    }

    /// All king moves of `player`: plain steps, then the castles whose
    /// right is passed in, whose lane is open, and whose king path is not
    /// attacked.
    pub fn king_moves(
        board: &Board,
        player: Player,
        can_castle_kingside: bool,
        can_castle_queenside: bool,
    ) -> (moves: Vec<Move>)
        ensures
            moves@ == king_moves_spec(*board, player, can_castle_kingside, can_castle_queenside),
            forall|k: int|
                0 <= k < moves@.len() ==> move_wf_board(*board, player, #[trigger] moves@[k]),
    {
        let kings = board.get_pieceboard(player, Pieces::King).bitboard;
        let own = board.get_player_mask(player);
        let mut moves: Vec<Move> = Vec::new();
        let mut i: u32 = 0;
        while i < 64
            invariant
                i <= 64,
                kings == board.spec_bb(player, Pieces::King),
                own == board.spec_side_mask(player),
                moves@ == king_normal_upto(*board, player, i as int),
                forall|k: int|
                    0 <= k < moves@.len() ==> move_wf_board(*board, player, #[trigger] moves@[k]),
            decreases 64 - i,
        {
            let ghost pre = moves@;
            if test_bit(kings, i) {
                let mask = 1u64 << (i as u64);
                let targets = MoveGen::get_king_attacks(mask) & !own;
                let mut part = Self::collect_moves(i, targets, Pieces::King);
                proof {
                    assert forall|k: int|
                        0 <= k < part@.len() implies move_wf_board(
                        *board,
                        player,
                        #[trigger] part@[k],
                    ) by {
                        let m = part@[k];
                        lemma_and_bit(king_attacks_of(mask), !own, m.to as u64);
                        lemma_king_steps_are_single(i as u64);
                    }
                }
                moves.append(&mut part);
            } else {
                proof {
                    assert(moves@ + Seq::<Move>::empty() =~= moves@);
                }
            }
            i = i + 1;
        }
        let ghost normal = moves@;

        let free_mask = board.get_freesq_mask();
        let rooks = board.get_pieceboard(player, Pieces::Rook).bitboard;
        let atk = MoveGen::get_all_attacks_down(board, player.other());
        proof {
            lemma_not_bit(board.spec_occupied(), 1);
            lemma_not_bit(board.spec_occupied(), 2);
            lemma_not_bit(board.spec_occupied(), 4);
            lemma_not_bit(board.spec_occupied(), 5);
            lemma_not_bit(board.spec_occupied(), 6);
        }
        if can_castle_kingside && test_bit(kings, 3) && test_bit(rooks, 0) && test_bit(free_mask, 1)
            && test_bit(free_mask, 2) && !test_bit(atk, 3) && !test_bit(atk, 2) {
            let m = Move { piece: Pieces::King, from: 3, to: 1, promotion: None, ep: false };
            moves.push(m);
            proof {
                assert(moves@ =~= normal + seq![m]);
            }
        } else {
            proof {
                assert(moves@ + Seq::<Move>::empty() =~= moves@);
            }
        }
        let ghost with_k = moves@;
        if can_castle_queenside && test_bit(kings, 3) && test_bit(rooks, 7) && test_bit(
            free_mask,
            4,
        ) && test_bit(free_mask, 5) && test_bit(free_mask, 6) && !test_bit(atk, 3) && !test_bit(
            atk,
            4,
        ) {
            let m = Move { piece: Pieces::King, from: 3, to: 5, promotion: None, ep: false };
            moves.push(m);
            proof {
                assert(moves@ =~= with_k + seq![m]);
            }
        } else {
            proof {
                assert(moves@ + Seq::<Move>::empty() =~= moves@);
            }
        }
        proof {
            assert(moves@ =~= normal + castle_kingside_moves(
                *board,
                player,
                can_castle_kingside,
            ) + castle_queenside_moves(*board, player, can_castle_queenside));
        }
        moves
    }

    /// Every pseudo-legal move of the side to move: piece movement rules
    /// and blocking respected, the mover's own king possibly left in check.
    pub fn pseudo_legal(game: &crate::game::GameState) -> (moves: Vec<Move>)
        ensures
            moves@ == pseudo_legal_spec(*game),
            forall|k: int|
                0 <= k < moves@.len() ==> move_wf_board(
                    game.relative_board,
                    game.player,
                    #[trigger] moves@[k],
                ),
    {
        let board = game.get_relative_board();
        let player = game.get_player();
        let ep_square = game.get_ep();
        let castling_r = game.get_castling();

        let (k_flag, q_flag) = match player {
            Player::White => (
                crate::game::CASTLE_WHITE_KINGSIDE,
                crate::game::CASTLE_WHITE_QUEENSIDE,
            ),
            Player::Black => (
                crate::game::CASTLE_BLACK_KINGSIDE,
                crate::game::CASTLE_BLACK_QUEENSIDE,
            ),
        };
        let ck = castling_r & k_flag != 0;
        let cq = castling_r & q_flag != 0;

        let mut moves = MoveGen::pawn_moves(&board, player, ep_square);
        let mut part = MoveGen::knight_moves(&board, player);
        moves.append(&mut part);
        let mut part = MoveGen::rook_moves(&board, player);
        moves.append(&mut part);
        let mut part = MoveGen::bishop_moves(&board, player);
        moves.append(&mut part);
        let mut part = MoveGen::queen_moves(&board, player);
        moves.append(&mut part);
        let mut part = MoveGen::king_moves(&board, player, ck, cq);
        moves.append(&mut part);
        moves
    }
}

/// The kingside castle lane is open: the king and rook stand on their home
/// squares and the squares between them are empty.
pub open spec fn castle_kingside_open(b: Board, pl: Player) -> bool {
    &&& bit64(b.spec_bb(pl, Pieces::King), 3)
    &&& bit64(b.spec_bb(pl, Pieces::Rook), 0)
    &&& !bit64(b.spec_occupied(), 1)
    &&& !bit64(b.spec_occupied(), 2)
}

/// The queenside castle lane is open.
pub open spec fn castle_queenside_open(b: Board, pl: Player) -> bool {
    &&& bit64(b.spec_bb(pl, Pieces::King), 3)
    &&& bit64(b.spec_bb(pl, Pieces::Rook), 7)
    &&& !bit64(b.spec_occupied(), 4)
    &&& !bit64(b.spec_occupied(), 5)
    &&& !bit64(b.spec_occupied(), 6)
}

/// What applying a move to the board relies on: squares in range, the moving
/// piece on its origin, a promotion only of a pawn and into another kind, an
/// en-passant capture only with the captured pawn in place, and a castle
/// only through its open lane. Every generated pseudo-legal move satisfies
/// this, and `make_move` asks for no more.
pub open spec fn move_wf_board(b: Board, pl: Player, m: Move) -> bool {
    &&& m.from < 64
    &&& m.to < 64
    &&& bit64(b.spec_bb(pl, m.piece), m.from as u64)
    &&& (m.promotion matches Some(p) ==> m.piece == Pieces::Pawn && p != Pieces::Pawn && m.from
        != m.to)
    &&& (m.ep ==> m.piece == Pieces::Pawn && m.to >= 8 && bit64(
        b.spec_bb(pl.spec_other(), Pieces::Pawn),
        (m.to - 8) as u64,
    ))
    &&& (m.piece == Pieces::King && m.from == 3 && m.to == 1 ==> castle_kingside_open(b, pl))
    &&& (m.piece == Pieces::King && m.from == 3 && m.to == 5 ==> castle_queenside_open(b, pl))
}

/// A move of `piece` from `from` onto square `t`, when `t` is a target.
pub open spec fn collect_contrib(from: u32, targets: u64, piece: Pieces, t: int) -> Seq<Move> {
    if 0 <= t < 64 && bit64(targets, t as u64) {
        seq![Move { piece: piece, from: from, to: t as u32, promotion: None, ep: false }]
    } else {
        Seq::empty()
    }
}

/// The moves of `piece` from `from` onto the targets below square `i`, in
/// rising square order.
pub open spec fn collect_upto(from: u32, targets: u64, piece: Pieces, i: int) -> Seq<Move>
    decreases i,
{
    if i <= 0 {
        Seq::empty()
    } else {
        collect_upto(from, targets, piece, i - 1) + collect_contrib(from, targets, piece, i - 1)
    }
}

/// The moves of `piece` from `from` onto every target square.
pub open spec fn collect_moves_spec(from: u32, targets: u64, piece: Pieces) -> Seq<Move> {
    collect_upto(from, targets, piece, 64)
}

/// The pawn moves landing on square `t` of the push or capture targets
/// reached by adding `shift`: four promotions on the back rank, one plain
/// move elsewhere.
pub open spec fn pawn_contrib(targets: u64, shift: u32, t: int) -> Seq<Move> {
    if 0 <= t < 64 && bit64(targets, t as u64) && t >= shift {
        if t >= 56 {
            seq![
                Move {
                    piece: Pieces::Pawn,
                    from: (t - shift) as u32,
                    to: t as u32,
                    promotion: Some(Pieces::Knight),
                    ep: false,
                },
                Move {
                    piece: Pieces::Pawn,
                    from: (t - shift) as u32,
                    to: t as u32,
                    promotion: Some(Pieces::Bishop),
                    ep: false,
                },
                Move {
                    piece: Pieces::Pawn,
                    from: (t - shift) as u32,
                    to: t as u32,
                    promotion: Some(Pieces::Rook),
                    ep: false,
                },
                Move {
                    piece: Pieces::Pawn,
                    from: (t - shift) as u32,
                    to: t as u32,
                    promotion: Some(Pieces::Queen),
                    ep: false,
                },
            ]
        } else {
            seq![
                Move {
                    piece: Pieces::Pawn,
                    from: (t - shift) as u32,
                    to: t as u32,
                    promotion: None,
                    ep: false,
                },
            ]
        }
    } else {
        Seq::empty()
    }
}

/// The pawn moves onto the targets below square `i`, in rising square order.
pub open spec fn pawn_collect_upto(targets: u64, shift: u32, i: int) -> Seq<Move>
    decreases i,
{
    if i <= 0 {
        Seq::empty()
    } else {
        pawn_collect_upto(targets, shift, i - 1) + pawn_contrib(targets, shift, i - 1)
    }
}

/// The pawn moves onto every target square.
pub open spec fn pawn_collect_spec(targets: u64, shift: u32) -> Seq<Move> {
    pawn_collect_upto(targets, shift, 64)
}

/// Target squares of a knight standing on square `s`: its attacks off the
/// side's own pieces.
pub open spec fn knight_targets(b: Board, pl: Player, s: int) -> u64 {
    knight_attacks_of(1u64 << (s as u64)) & !b.spec_side_mask(pl)
}

/// Target squares of a rook standing on square `s`.
pub open spec fn rook_targets(b: Board, pl: Player, s: int) -> u64 {
    rook_rays(s as u64, b.spec_occupied()) & !b.spec_side_mask(pl)
}

/// Target squares of a bishop standing on square `s`.
pub open spec fn bishop_targets(b: Board, pl: Player, s: int) -> u64 {
    bishop_rays(s as u64, b.spec_occupied()) & !b.spec_side_mask(pl)
}

/// Target squares of a queen standing on square `s`.
pub open spec fn queen_targets(b: Board, pl: Player, s: int) -> u64 {
    queen_rays(s as u64, b.spec_occupied()) & !b.spec_side_mask(pl)
}

/// Target squares of a king standing on square `s`.
pub open spec fn king_targets(b: Board, pl: Player, s: int) -> u64 {
    king_attacks_of(1u64 << (s as u64)) & !b.spec_side_mask(pl)
}

/// The knight moves of `pl` whose origin lies below square `i`, in rising
/// origin order.
pub open spec fn knight_moves_upto(b: Board, pl: Player, i: int) -> Seq<Move>
    decreases i,
{
    if i <= 0 {
        Seq::empty()
    } else {
        knight_moves_upto(b, pl, i - 1) + (if bit64(b.spec_bb(pl, Pieces::Knight), (i - 1) as u64) {
            collect_moves_spec((i - 1) as u32, knight_targets(b, pl, i - 1), Pieces::Knight)
        } else {
            Seq::empty()
        })
    }
}

/// The rook moves of `pl` whose origin lies below square `i`.
pub open spec fn rook_moves_upto(b: Board, pl: Player, i: int) -> Seq<Move>
    decreases i,
{
    if i <= 0 {
        Seq::empty()
    } else {
        rook_moves_upto(b, pl, i - 1) + (if bit64(b.spec_bb(pl, Pieces::Rook), (i - 1) as u64) {
            collect_moves_spec((i - 1) as u32, rook_targets(b, pl, i - 1), Pieces::Rook)
        } else {
            Seq::empty()
        })
    }
}

/// The bishop moves of `pl` whose origin lies below square `i`.
pub open spec fn bishop_moves_upto(b: Board, pl: Player, i: int) -> Seq<Move>
    decreases i,
{
    if i <= 0 {
        Seq::empty()
    } else {
        bishop_moves_upto(b, pl, i - 1) + (if bit64(b.spec_bb(pl, Pieces::Bishop), (i - 1) as u64) {
            collect_moves_spec((i - 1) as u32, bishop_targets(b, pl, i - 1), Pieces::Bishop)
        } else {
            Seq::empty()
        })
    }
}

/// The queen moves of `pl` whose origin lies below square `i`.
pub open spec fn queen_moves_upto(b: Board, pl: Player, i: int) -> Seq<Move>
    decreases i,
{
    if i <= 0 {
        Seq::empty()
    } else {
        queen_moves_upto(b, pl, i - 1) + (if bit64(b.spec_bb(pl, Pieces::Queen), (i - 1) as u64) {
            collect_moves_spec((i - 1) as u32, queen_targets(b, pl, i - 1), Pieces::Queen)
        } else {
            Seq::empty()
        })
    }
}

/// The plain king steps of `pl` whose origin lies below square `i`.
pub open spec fn king_normal_upto(b: Board, pl: Player, i: int) -> Seq<Move>
    decreases i,
{
    if i <= 0 {
        Seq::empty()
    } else {
        king_normal_upto(b, pl, i - 1) + (if bit64(b.spec_bb(pl, Pieces::King), (i - 1) as u64) {
            collect_moves_spec((i - 1) as u32, king_targets(b, pl, i - 1), Pieces::King)
        } else {
            Seq::empty()
        })
    }
}

/// All knight moves of `pl`.
pub open spec fn knight_moves_spec(b: Board, pl: Player) -> Seq<Move> {
    knight_moves_upto(b, pl, 64)
}

/// All rook moves of `pl`.
pub open spec fn rook_moves_spec(b: Board, pl: Player) -> Seq<Move> {
    rook_moves_upto(b, pl, 64)
}

/// All bishop moves of `pl`.
pub open spec fn bishop_moves_spec(b: Board, pl: Player) -> Seq<Move> {
    bishop_moves_upto(b, pl, 64)
}

/// All queen moves of `pl`.
pub open spec fn queen_moves_spec(b: Board, pl: Player) -> Seq<Move> {
    queen_moves_upto(b, pl, 64)
}

/// The kingside castle move, when the right is held, the lane is open, and
/// neither the king's square nor the square it crosses is attacked. The
/// king's landing square is left to the legality filter.
pub open spec fn castle_kingside_moves(b: Board, pl: Player, ck: bool) -> Seq<Move> {
    if ck && castle_kingside_open(b, pl) && !bit64(attacks_down_of(b, pl.spec_other()), 3) && !bit64(
        attacks_down_of(b, pl.spec_other()),
        2,
    ) {
        seq![Move { piece: Pieces::King, from: 3, to: 1, promotion: None, ep: false }]
    } else {
        Seq::empty()
    }
}

/// The queenside castle move, under the same conditions on its own lane.
pub open spec fn castle_queenside_moves(b: Board, pl: Player, cq: bool) -> Seq<Move> {
    if cq && castle_queenside_open(b, pl) && !bit64(attacks_down_of(b, pl.spec_other()), 3)
        && !bit64(attacks_down_of(b, pl.spec_other()), 4) {
        seq![Move { piece: Pieces::King, from: 3, to: 5, promotion: None, ep: false }]
    } else {
        Seq::empty()
    }
}

/// All king moves of `pl`: the plain steps, then the castles.
pub open spec fn king_moves_spec(b: Board, pl: Player, ck: bool, cq: bool) -> Seq<Move> {
    king_normal_upto(b, pl, 64) + castle_kingside_moves(b, pl, ck) + castle_queenside_moves(
        b,
        pl,
        cq,
    )
}

/// Target squares of single pawn pushes: one rank up, onto a free square.
pub open spec fn pawn_single_targets(b: Board, pl: Player) -> u64 {
    (b.spec_bb(pl, Pieces::Pawn) << 8u64) & !b.spec_occupied()
}

/// Target squares of double pawn pushes: from the second rank, through a
/// free square, onto a free square.
pub open spec fn pawn_double_targets(b: Board, pl: Player) -> u64 {
    ((b.spec_bb(pl, Pieces::Pawn) & 0xFF00u64) << 16u64) & !b.spec_occupied() & (!b.spec_occupied()
        << 8u64)
}

/// Target squares of pawn captures with the file index falling.
pub open spec fn pawn_cap7_targets(b: Board, pl: Player) -> u64 {
    ((b.spec_bb(pl, Pieces::Pawn) & NOT_H_FILE) << 7u64) & b.spec_side_mask(pl.spec_other())
}

/// Target squares of pawn captures with the file index rising.
pub open spec fn pawn_cap9_targets(b: Board, pl: Player) -> u64 {
    ((b.spec_bb(pl, Pieces::Pawn) & NOT_A_FILE) << 9u64) & b.spec_side_mask(pl.spec_other())
}

/// The en-passant captures onto the target square `ep`, if any: a pawn one
/// step diagonally below it may take the opposing pawn that sits one rank
/// below the target.
pub open spec fn pawn_ep_moves(b: Board, pl: Player, ep: Option<u32>) -> Seq<Move> {
    match ep {
        Some(e) => if e < 64 {
            (if e >= 9 && bit64(b.spec_bb(pl, Pieces::Pawn) & NOT_A_FILE, (e - 9) as u64) && bit64(
                b.spec_bb(pl.spec_other(), Pieces::Pawn),
                (e - 8) as u64,
            ) {
                seq![
                    Move {
                        piece: Pieces::Pawn,
                        from: (e - 9) as u32,
                        to: e,
                        promotion: None,
                        ep: true,
                    },
                ]
            } else {
                Seq::empty()
            }) + (if e >= 8 && bit64(b.spec_bb(pl, Pieces::Pawn) & NOT_H_FILE, (e - 7) as u64)
                && bit64(b.spec_bb(pl.spec_other(), Pieces::Pawn), (e - 8) as u64) {
                seq![
                    Move {
                        piece: Pieces::Pawn,
                        from: (e - 7) as u32,
                        to: e,
                        promotion: None,
                        ep: true,
                    },
                ]
            } else {
                Seq::empty()
            })
        } else {
            Seq::empty()
        },
        None => Seq::empty(),
    }
}

/// All pawn moves of `pl`: single pushes, double pushes, the two capture
/// directions, then en passant.
pub open spec fn pawn_moves_spec(b: Board, pl: Player, ep: Option<u32>) -> Seq<Move> {
    pawn_collect_spec(pawn_single_targets(b, pl), 8) + pawn_collect_spec(
        pawn_double_targets(b, pl),
        16,
    ) + pawn_collect_spec(pawn_cap7_targets(b, pl), 7) + pawn_collect_spec(
        pawn_cap9_targets(b, pl),
        9,
    ) + pawn_ep_moves(b, pl, ep)
}

/// The side to move still holds its kingside castling right.
pub open spec fn can_castle_kingside(s: crate::game::GameState) -> bool {
    s.castling & crate::game::kingside_flag(s.player) != 0
}

/// The side to move still holds its queenside castling right.
pub open spec fn can_castle_queenside(s: crate::game::GameState) -> bool {
    s.castling & crate::game::queenside_flag(s.player) != 0
}

/// Every pseudo-legal move of the side to move, in the fixed kind order:
/// pawn, knight, rook, bishop, queen, king.
pub open spec fn pseudo_legal_spec(s: crate::game::GameState) -> Seq<Move> {
    pawn_moves_spec(s.relative_board, s.player, s.ep_square) + knight_moves_spec(
        s.relative_board,
        s.player,
    ) + rook_moves_spec(s.relative_board, s.player) + bishop_moves_spec(s.relative_board, s.player)
        + queen_moves_spec(s.relative_board, s.player) + king_moves_spec(
        s.relative_board,
        s.player,
        can_castle_kingside(s),
        can_castle_queenside(s),
    )
}

/// A king standing on its home square does not step onto the castle
/// landing squares: they are two files away.
pub proof fn lemma_king_steps_are_single(s: u64)
    by (bit_vector)
    requires
        s < 64,
    ensures
        s == 3 ==> !bit64(king_attacks_of(1u64 << s), 1u64),
        s == 3 ==> !bit64(king_attacks_of(1u64 << s), 5u64),
{
}

} // verus!
