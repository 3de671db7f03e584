//! Perft: the exact count of leaf positions reachable in a fixed number of
//! plies of legal play — the conformance oracle for the whole move
//! machinery.

use crate::game::game_model;
use crate::game::legal_list;
use crate::game::make_spec;
use crate::game::wf_game;
use crate::game::Game;
use crate::game::GameState;
use crate::movegen::Move;
use vstd::prelude::*;

verus! {

/// The number of leaf positions `depth` plies of legal play away; a single
/// position at depth zero.
pub open spec fn perft_spec(s: GameState, depth: nat) -> nat
    decreases depth, legal_list(s).len() + 1,
{
    if depth == 0 {
        1
    } else {
        perft_children(s, legal_list(s), legal_list(s).len() as int, depth)
    }
}

/// The leaves below the first `i` legal moves of `s`.
pub open spec fn perft_children(s: GameState, moves: Seq<Move>, i: int, depth: nat) -> nat
    decreases depth, i,
{
    if depth == 0 || i <= 0 {
        0
    } else {
        perft_children(s, moves, i - 1, depth) + perft_spec(
            make_spec(s, moves[i - 1]),
            (depth - 1) as nat,
        )
    }
}

/// `n` clamped to what a `u32` can carry.
pub open spec fn clamp32(n: nat) -> u32 {
    if n > u32::MAX {
        u32::MAX
    } else {
        n as u32
    }
}

/// Counts the leaf positions `depth` plies of legal play away, saturating
/// at `u32::MAX`. The game comes back exactly as it was.
pub fn perft(game: &mut Game, depth: usize) -> (r: u32)
    requires
        wf_game(*old(game)),
    ensures
        wf_game(*final(game)),
        game_model(*final(game)) == game_model(*old(game)),
        r == clamp32(perft_spec(old(game).state, depth as nat)),
    decreases depth,
{
    if depth == 0 {
        return 1;
    }
    let moves = game.legal_moves();
    let mut nodes: u32 = 0;
    let mut i: usize = 0;
    while i < moves.len()
        invariant
            wf_game(*game),
            game_model(*game) == game_model(*old(game)),
            moves@ == legal_list(old(game).state),
            forall|k: int|
                0 <= k < moves@.len() ==> crate::movegen::move_wf_board(
                    old(game).state.relative_board,
                    old(game).state.player,
                    #[trigger] moves@[k],
                ),
            depth >= 1,
            i <= moves@.len(),
            nodes == clamp32(perft_children(old(game).state, moves@, i as int, depth as nat)),
        decreases moves@.len() - i,
    {
        let m = moves[i];
        game.do_move(&m);
        let n = perft(game, depth - 1);
        game.undo_move();
        proof {
            crate::game::lemma_make_undo_round_trip(
                old(game).state,
                old(game).history.history@,
                m,
            );
        }
        let wide = (nodes as u64) + (n as u64);
        if wide > u32::MAX as u64 {
            nodes = u32::MAX;
        } else {
            nodes = wide as u32;
        }
        i = i + 1;
    }
    nodes
}

} // verus!
