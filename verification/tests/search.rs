use rustchess::board::{Pieces, Player};
use rustchess::game::Game;
use rustchess::movegen::Move;
use rustchess::search;
use rustchess::search::eval;

// A plain minimax over White-positive values, with the same stopping rule
// as the library's search: depth spent, checkmate, or draw.
fn minimax_eval(game: &mut Game, depth: u32) -> i64 {
    let player = game.state.get_player();
    if depth == 0 || game.is_checkmate(player) || game.is_remis() {
        return eval(&game.state);
    }

    let moves = game.legal_moves();

    let mut best_v = match game.state.get_player() {
        Player::White => -search::INF,
        Player::Black => search::INF,
    };

    if game.state.get_player() == Player::White {
        for m in moves.iter() {
            let _ = game.makemove(m);
            let v = minimax_eval(game, depth - 1);
            game.undo_move();

            if v > best_v {
                best_v = v;
            }
        }
    } else {
        for m in moves.iter() {
            let _ = game.makemove(m);
            let v = minimax_eval(game, depth - 1);
            game.undo_move();

            if v < best_v {
                best_v = v;
            }
        }
    }

    best_v
}

// A pruning-free root scan matching the library's root convention: each
// child is searched one ply shallower.
fn root_search(game: &mut Game, depth: u32) -> (Option<Move>, i64) {
    let moves = game.legal_moves();

    let mut best_move = None;
    let mut best_v = match game.state.get_player() {
        Player::White => -search::INF,
        Player::Black => search::INF,
    };

    if game.state.get_player() == Player::White {
        for m in moves.iter() {
            let _ = game.makemove(m);
            let v = minimax_eval(game, depth - 1);
            game.undo_move();

            if v > best_v {
                best_v = v;
                best_move = Some(*m);
            }
        }
    } else {
        for m in moves.iter() {
            let _ = game.makemove(m);
            let v = minimax_eval(game, depth - 1);
            game.undo_move();

            if v < best_v {
                best_v = v;
                best_move = Some(*m);
            }
        }
    }

    (best_move, best_v)
}

#[test]
pub fn test_fen_1() {
    let mut game =
        Game::from_fen("rnbqkbnr/pppppppp/8/8/8/8/PPPPPPPP/RNBQKBNR w KQkq - 0 1").unwrap();
    let (t_m, v_m) = root_search(&mut game, 3);
    let (t_s, v_s) = search::root_search(&mut game, 3);

    assert_eq!(t_m, t_s, "Moves not the same");
    assert_eq!(v_m, v_s, "Value returened not the same");
}

#[test]
pub fn test_fen_2() {
    let mut game =
        Game::from_fen("r3k2r/p1ppqpb1/bn2pnp1/3PN3/1p2P3/2N2Q1p/PPPBBPPP/R3K2R w KQkq - 0 1")
            .unwrap();
    let (t_m, v_m) = root_search(&mut game, 2);
    let (t_s, v_s) = search::root_search(&mut game, 2);

    assert_eq!(t_m, t_s, "Failed at depth {}: Moves not the same", 3);
    assert_eq!(v_m, v_s, "Failed at depth {}: Value returened not the same", 3);
}

#[test]
fn test_eval_startpos_balanced() {
    let game = Game::from_fen("rnbqkbnr/pppppppp/8/8/8/8/PPPPPPPP/RNBQKBNR w KQkq - 0 1").unwrap();
    assert_eq!(eval(&game.state), 0);
}

#[test]
fn test_eval_extra_queen() {
    // White has an extra queen and both kings stand: 900 in White's favour
    let game = Game::from_fen("4k3/8/8/8/8/8/8/3QK3 w - - 0 1").unwrap();
    assert_eq!(eval(&game.state), 900);
}

#[test]
fn test_eval_black_up_a_rook() {
    let game = Game::from_fen("r3k3/8/8/8/8/8/8/4K3 b - - 0 1").unwrap();
    assert_eq!(eval(&game.state), -500);
}

#[test]
fn test_count_pieces_startpos() {
    let game = Game::from_fen("rnbqkbnr/pppppppp/8/8/8/8/PPPPPPPP/RNBQKBNR w KQkq - 0 1").unwrap();
    assert_eq!(game.state.count_pieces(Player::White, Pieces::Pawn), 8);
    assert_eq!(game.state.count_pieces(Player::Black, Pieces::Knight), 2);
    assert_eq!(game.state.count_pieces(Player::White, Pieces::King), 1);
}

#[test]
fn test_search_takes_hanging_queen() {
    // The bishop takes the hanging queen: the one move that turns the
    // balance from minus the queen to plus the bishop
    let mut game = Game::from_fen("7k/8/8/8/3q4/8/8/B6K w - - 0 1").unwrap();
    let (m, v) = search::root_search(&mut game, 2);
    let mv = m.unwrap();
    let lan = Move::to_lan(&mv, &game.state).unwrap();
    assert_eq!(lan, "a1d4");
    assert_eq!(v, 330);
}
