//! Material-only negamax search with alpha-beta pruning.
//!
//! The value of a position for the side to move is defined by
//! `negamax_spec`: at a leaf the material balance seen from the mover, else
//! the best of the negated child values over the legal moves. `alphabeta`
//! computes it with pruning: inside the window it returns the exact value,
//! outside it returns a bound on it.

use crate::bits::lemma_popcount64_le_64;
use crate::bits::popcount64;
use crate::board::Pieces;
use crate::board::Player;
use crate::game::checkmate_spec;
use crate::game::game_model;
use crate::game::has_legal_spec;
use crate::game::legal_list;
use crate::game::lemma_has_legal_len;
use crate::game::lemma_make_undo_round_trip;
use crate::game::make_spec;
use crate::game::wf_game;
use crate::game::Game;
use crate::game::GameState;
use crate::movegen::Move;
use vstd::prelude::*;

verus! {

/// Material weight of a pawn.
pub const PAWN_V: i64 = 100;

/// Material weight of a knight.
pub const KNIGHT_V: i64 = 320;

/// Material weight of a bishop.
pub const BISHOP_V: i64 = 330;

/// Material weight of a rook.
pub const ROOK_V: i64 = 500;

/// Material weight of a queen.
pub const QUEEN_V: i64 = 900;

/// Material weight of a king.
pub const KING_V: i64 = 1000000;

/// A bound above every attainable material balance: sixty-four times the
/// sum of the weights.
pub const MAX_EVAL: i64 = 64 * 1002150;

/// The search's infinity: strictly above every position value.
pub const INF: i64 = 1000000000;

/// The larger of two values.
pub open spec fn imax(a: int, b: int) -> int {
    if a > b {
        a
    } else {
        b
    }
}

/// The smaller of two values.
pub open spec fn imin(a: int, b: int) -> int {
    if a < b {
        a
    } else {
        b
    }
}

/// How many pieces of one kind a side has.
pub open spec fn side_count(s: GameState, pl: Player, pc: Pieces) -> int {
    popcount64(s.relative_board.spec_bb(pl, pc)) as int
}

/// White's surplus of one piece kind.
pub open spec fn kind_diff(s: GameState, pc: Pieces) -> int {
    side_count(s, Player::White, pc) - side_count(s, Player::Black, pc)
}

/// The material balance, positive for White, under the fixed weights.
pub open spec fn eval_spec(s: GameState) -> int {
    PAWN_V * kind_diff(s, Pieces::Pawn) + KNIGHT_V * kind_diff(s, Pieces::Knight) + BISHOP_V
        * kind_diff(s, Pieces::Bishop) + ROOK_V * kind_diff(s, Pieces::Rook) + QUEEN_V * kind_diff(
        s,
        Pieces::Queen,
    ) + KING_V * kind_diff(s, Pieces::King)
}

/// The sign that turns a White-positive balance into the mover's view.
pub open spec fn color_of(pl: Player) -> int {
    match pl {
        Player::White => 1,
        Player::Black => -1,
    }
}

/// The material balance never leaves `[-MAX_EVAL, MAX_EVAL]`.
pub proof fn lemma_eval_bounds(s: GameState)
    ensures
        -(MAX_EVAL as int) <= eval_spec(s) <= MAX_EVAL as int,
{
    lemma_popcount64_le_64(s.relative_board.spec_bb(Player::White, Pieces::Pawn));
    lemma_popcount64_le_64(s.relative_board.spec_bb(Player::Black, Pieces::Pawn));
    lemma_popcount64_le_64(s.relative_board.spec_bb(Player::White, Pieces::Knight));
    lemma_popcount64_le_64(s.relative_board.spec_bb(Player::Black, Pieces::Knight));
    lemma_popcount64_le_64(s.relative_board.spec_bb(Player::White, Pieces::Bishop));
    lemma_popcount64_le_64(s.relative_board.spec_bb(Player::Black, Pieces::Bishop));
    lemma_popcount64_le_64(s.relative_board.spec_bb(Player::White, Pieces::Rook));
    lemma_popcount64_le_64(s.relative_board.spec_bb(Player::Black, Pieces::Rook));
    lemma_popcount64_le_64(s.relative_board.spec_bb(Player::White, Pieces::Queen));
    lemma_popcount64_le_64(s.relative_board.spec_bb(Player::Black, Pieces::Queen));
    lemma_popcount64_le_64(s.relative_board.spec_bb(Player::White, Pieces::King));
    lemma_popcount64_le_64(s.relative_board.spec_bb(Player::Black, Pieces::King));
}

/// Whether the search stops here: depth spent, mover checkmated, or the
/// game drawn by the clock or for want of a legal move.
pub open spec fn terminal_spec(s: GameState, depth: nat) -> bool {
    depth == 0 || checkmate_spec(s, s.player) || s.halfmove_clock >= 50 || !has_legal_spec(s)
}

/// The value of the position for the side to move, `depth` plies deep: the
/// material balance turned to the mover's view at a stop, else the best of
/// the negated child values over the legal moves.
pub open spec fn negamax_spec(s: GameState, depth: nat) -> int
    decreases depth, legal_list(s).len() + 1,
{
    if terminal_spec(s, depth) {
        eval_spec(s) * color_of(s.player)
    } else {
        nega_best(s, legal_list(s), legal_list(s).len() as int, depth)
    }
}

/// The best of the negated child values over the first `i` moves.
pub open spec fn nega_best(s: GameState, moves: Seq<Move>, i: int, depth: nat) -> int
    decreases depth, i,
{
    if depth == 0 || i <= 0 {
        -(INF as int)
    } else {
        imax(
            nega_best(s, moves, i - 1, depth),
            -negamax_spec(make_spec(s, moves[i - 1]), (depth - 1) as nat),
        )
    }
}

/// Every negated child value is at most the best over a prefix holding it.
proof fn lemma_nega_best_ge(s: GameState, moves: Seq<Move>, depth: nat, j: int, i: int)
    requires
        depth >= 1,
        0 <= j < i,
    ensures
        -negamax_spec(make_spec(s, moves[j]), (depth - 1) as nat) <= nega_best(s, moves, i, depth),
    decreases i,
{
    if j < i - 1 {
        lemma_nega_best_ge(s, moves, depth, j, i - 1);
    }
}

/// A bound above every negated child value bounds the best.
proof fn lemma_nega_best_le(s: GameState, moves: Seq<Move>, depth: nat, i: int, bound: int)
    requires
        depth >= 1,
        -(INF as int) <= bound,
        forall|j: int|
            0 <= j < i ==> -negamax_spec(make_spec(s, #[trigger] moves[j]), (depth - 1) as nat)
                <= bound,
    ensures
        nega_best(s, moves, i, depth) <= bound,
    decreases i,
{
    if i > 0 {
        lemma_nega_best_le(s, moves, depth, i - 1, bound);
    }
}

/// The position value never leaves `[-MAX_EVAL, MAX_EVAL]`.
pub proof fn lemma_negamax_bounds(s: GameState, depth: nat)
    ensures
        -(MAX_EVAL as int) <= negamax_spec(s, depth) <= MAX_EVAL as int,
    decreases depth, legal_list(s).len() + 1,
{
    if terminal_spec(s, depth) {
        lemma_eval_bounds(s);
    } else {
        lemma_has_legal_len(s);
        lemma_nega_best_bounds(s, legal_list(s), legal_list(s).len() as int, depth);
    }
}

/// The best over a nonempty prefix stays within the balance bounds.
proof fn lemma_nega_best_bounds(s: GameState, moves: Seq<Move>, i: int, depth: nat)
    requires
        depth >= 1,
    ensures
        nega_best(s, moves, i, depth) <= MAX_EVAL as int,
        i >= 1 ==> -(MAX_EVAL as int) <= nega_best(s, moves, i, depth),
    decreases depth, i,
{
    if i > 0 {
        lemma_nega_best_bounds(s, moves, i - 1, depth);
        lemma_negamax_bounds(make_spec(s, moves[i - 1]), (depth - 1) as nat);
    }
}

/// The larger of two values.
#[inline]
pub fn max(a: i64, b: i64) -> (r: i64)
    ensures
        r == imax(a as int, b as int),
{
    if a > b {
        a
    } else {
        b
    }
}

/// The smaller of two values.
#[inline]
pub fn min(a: i64, b: i64) -> (r: i64)
    ensures
        r == imin(a as int, b as int),
{
    if a < b {
        a
    } else {
        b
    }
}

/// The material balance of the position, positive for White.
pub fn eval(s: &GameState) -> (r: i64)
    ensures
        r == eval_spec(*s),
        -MAX_EVAL <= r <= MAX_EVAL,
{
    proof {
        lemma_eval_bounds(*s);
    }
    let v: i64 = PAWN_V * ((s.count_pieces(Player::White, Pieces::Pawn) as i64) - (s.count_pieces(
        Player::Black,
        Pieces::Pawn,
    ) as i64)) + KNIGHT_V * ((s.count_pieces(Player::White, Pieces::Knight) as i64) - (
    s.count_pieces(Player::Black, Pieces::Knight) as i64)) + BISHOP_V * ((s.count_pieces(
        Player::White,
        Pieces::Bishop,
    ) as i64) - (s.count_pieces(Player::Black, Pieces::Bishop) as i64)) + ROOK_V * ((s.count_pieces(
        Player::White,
        Pieces::Rook,
    ) as i64) - (s.count_pieces(Player::Black, Pieces::Rook) as i64)) + QUEEN_V * ((s.count_pieces(
        Player::White,
        Pieces::Queen,
    ) as i64) - (s.count_pieces(Player::Black, Pieces::Queen) as i64)) + KING_V * ((s.count_pieces(
        Player::White,
        Pieces::King,
    ) as i64) - (s.count_pieces(Player::Black, Pieces::King) as i64));
    v
}

/// Negamax with alpha-beta pruning, fail-soft: within the window the exact
/// position value comes back; a result at or under `alpha` is an upper
/// bound on the value, one at or over `beta` a lower bound. The game comes
/// back exactly as it was.
#[verifier::rlimit(100)]
pub fn alphabeta(game: &mut Game, depth: u32, alpha: i64, beta: i64, color: i32) -> (r: i64)
    requires
        wf_game(*old(game)),
        -INF <= alpha < beta <= INF,
        color as int == color_of(old(game).state.player),
    ensures
        wf_game(*final(game)),
        game_model(*final(game)) == game_model(*old(game)),
        -INF <= r <= INF,
        r < beta ==> negamax_spec(old(game).state, depth as nat) <= r,
        r > alpha ==> r <= negamax_spec(old(game).state, depth as nat),
    decreases depth,
{
    let pl = game.state.get_player();
    let mate = game.is_checkmate(pl);
    let remis = game.is_remis();
    if depth == 0 || mate || remis {
        let e = eval(&game.state);
        let c: i64 = color as i64;
        proof {
            assert(terminal_spec(old(game).state, depth as nat));
            assert(c == 1 || c == -1);
        }
        return e * c;
    }
    let ghost s0 = old(game).state;
    let moves = game.legal_moves();
    let mut best: i64 = -INF;
    let mut a = alpha;
    let mut idx: usize = 0;
    while idx < moves.len()
        invariant
            wf_game(*game),
            game_model(*game) == game_model(*old(game)),
            s0 == old(game).state,
            moves@ == legal_list(s0),
            forall|k: int|
                0 <= k < moves@.len() ==> crate::movegen::move_wf_board(
                    s0.relative_board,
                    s0.player,
                    #[trigger] moves@[k],
                ),
            depth >= 1,
            !terminal_spec(s0, depth as nat),
            color as int == color_of(s0.player),
            -INF <= alpha < beta <= INF,
            idx <= moves@.len(),
            -INF <= best <= INF,
            a as int == imax(alpha as int, best as int),
            a < beta,
            forall|j: int|
                0 <= j < idx ==> -negamax_spec(
                    make_spec(s0, #[trigger] moves@[j]),
                    (depth - 1) as nat,
                ) <= best,
            best > alpha ==> exists|j: int|
                0 <= j < idx && best <= -negamax_spec(
                    make_spec(s0, #[trigger] moves@[j]),
                    (depth - 1) as nat,
                ),
        decreases moves@.len() - idx,
    {
        let m = moves[idx];
        let ghost best_old = best;
        let ghost a_old = a;
        game.do_move(&m);
        let rc = alphabeta(game, depth - 1, -beta, -a, -color);
        game.undo_move();
        proof {
            lemma_make_undo_round_trip(old(game).state, old(game).history.history@, m);
        }
        let v = -rc;
        let ghost w = -negamax_spec(make_spec(s0, m), (depth - 1) as nat);
        proof {
            assert(v > a_old ==> v as int <= w);
            assert(v < beta ==> w <= v as int);
        }
        if v > best {
            best = v;
        }
        a = max(a, v);
        if a >= beta {
            proof {
                assert(best >= beta > alpha);
                let j = choose|j: int|
                    0 <= j < idx + 1 && best <= -negamax_spec(
                        make_spec(s0, #[trigger] moves@[j]),
                        (depth - 1) as nat,
                    );
                lemma_nega_best_ge(s0, moves@, depth as nat, j, moves@.len() as int);
            }
            return best;
        }
        idx = idx + 1;
    }
    proof {
        if best < beta {
            lemma_nega_best_le(s0, moves@, depth as nat, moves@.len() as int, best as int);
        }
        if best > alpha {
            let j = choose|j: int|
                0 <= j < moves@.len() && best <= -negamax_spec(
                    make_spec(s0, #[trigger] moves@[j]),
                    (depth - 1) as nat,
                );
            lemma_nega_best_ge(s0, moves@, depth as nat, j, moves@.len() as int);
        }
    }
    best
}

/// One step of the root scan: the candidate move and value after looking
/// at the first `i` legal moves, White maximising and Black minimising the
/// White-positive value, the earliest best kept.
pub open spec fn root_step(s: GameState, moves: Seq<Move>, i: int, depth: nat) -> (
    Option<Move>,
    int,
)
    decreases i,
{
    if i <= 0 {
        (
            None,
            if s.player == Player::White {
                -(INF as int)
            } else {
                INF as int
            },
        )
    } else {
        let prev = root_step(s, moves, i - 1, depth);
        let val = if s.player == Player::White {
            -negamax_spec(make_spec(s, moves[i - 1]), (depth - 1) as nat)
        } else {
            negamax_spec(make_spec(s, moves[i - 1]), (depth - 1) as nat)
        };
        if (s.player == Player::White && val > prev.1) || (s.player == Player::Black && val
            < prev.1) {
            (Some(moves[i - 1]), val)
        } else {
            prev
        }
    }
}

/// The best move and its White-positive value at the root.
pub open spec fn root_search_spec(s: GameState, depth: nat) -> (Option<Move>, int) {
    root_step(s, legal_list(s), legal_list(s).len() as int, depth)
}

/// Scans the legal moves once at the root and picks the best move for the
/// side to move alongside its value, positive for White; with no legal
/// move the value stays at the mover's worst. The game comes back exactly
/// as it was.
#[verifier::rlimit(100)]
pub fn root_search(game: &mut Game, depth: u32) -> (r: (Option<Move>, i64))
    requires
        wf_game(*old(game)),
        depth >= 1,
    ensures
        wf_game(*final(game)),
        game_model(*final(game)) == game_model(*old(game)),
        r.0 == root_search_spec(old(game).state, depth as nat).0,
        r.1 as int == root_search_spec(old(game).state, depth as nat).1,
{
    let ghost s0 = old(game).state;
    let white = match game.state.get_player() {
        Player::White => true,
        Player::Black => false,
    };
    let moves = game.legal_moves();
    let mut best_move: Option<Move> = None;
    let mut best_v: i64 = if white {
        -INF
    } else {
        INF
    };
    let mut idx: usize = 0;
    while idx < moves.len()
        invariant
            wf_game(*game),
            game_model(*game) == game_model(*old(game)),
            s0 == old(game).state,
            moves@ == legal_list(s0),
            forall|k: int|
                0 <= k < moves@.len() ==> crate::movegen::move_wf_board(
                    s0.relative_board,
                    s0.player,
                    #[trigger] moves@[k],
                ),
            depth >= 1,
            white == (s0.player == Player::White),
            idx <= moves@.len(),
            -INF <= best_v <= INF,
            best_move == root_step(s0, moves@, idx as int, depth as nat).0,
            best_v as int == root_step(s0, moves@, idx as int, depth as nat).1,
        decreases moves@.len() - idx,
    {
        let m = moves[idx];
        game.do_move(&m);
        let child_color: i32 = if white {
            -1
        } else {
            1
        };
        let rc = alphabeta(game, depth - 1, -INF, INF, child_color);
        game.undo_move();
        proof {
            lemma_make_undo_round_trip(old(game).state, old(game).history.history@, m);
            lemma_negamax_bounds(make_spec(s0, m), (depth - 1) as nat);
            assert(rc as int == negamax_spec(make_spec(s0, m), (depth - 1) as nat));
        }
        if white {
            let v = -rc;
            if v > best_v {
                best_v = v;
                best_move = Some(m);
            }
        } else {
            let v = rc;
            if v < best_v {
                best_v = v;
                best_move = Some(m);
            }
        }
        idx = idx + 1;
    }
    (best_move, best_v)
}

} // verus!
