use rustchess::board::{Pieces, Player};
use rustchess::game::{Game, GameResult, History};
use rustchess::movegen::Move;

const STARTPOS: &str = "rnbqkbnr/pppppppp/8/8/8/8/PPPPPPPP/RNBQKBNR w KQkq - 0 1";

#[test]
fn test_make_undo_restores() {
    let mut game = Game::from_fen(STARTPOS).unwrap();
    let before = game.state;
    let depth_before = game.history.history.len();
    let m = Move::from_lan("e2e4", &game.state).unwrap();
    game.makemove(&m).unwrap();
    assert_ne!(game.state, before);
    game.undo_move();
    assert_eq!(game.state, before);
    assert_eq!(game.history.history.len(), depth_before);
}

#[test]
fn test_initial_position_twenty_moves() {
    let mut game = Game::from_fen(STARTPOS).unwrap();
    assert_eq!(game.legal_moves().len(), 20);
}

#[test]
fn test_ep_square_set_and_cleared() {
    let mut game = Game::from_fen(STARTPOS).unwrap();
    let m = Move::from_lan("e2e4", &game.state).unwrap();
    game.makemove(&m).unwrap();
    let ep = game.state.get_ep().expect("double push must set the target");
    assert_eq!(game.state.shift_to_algebraic(ep).unwrap(), "e3");

    // a quiet reply clears it
    let m = Move::from_lan("a7a6", &game.state).unwrap();
    game.makemove(&m).unwrap();
    assert_eq!(game.state.get_ep(), None);

    // a fresh double push sets it again
    let mut game = Game::from_fen(STARTPOS).unwrap();
    let m = Move::from_lan("e2e4", &game.state).unwrap();
    game.makemove(&m).unwrap();
    let m = Move::from_lan("d7d5", &game.state).unwrap();
    game.makemove(&m).unwrap();
    let ep = game.state.get_ep().expect("double push must set the target");
    assert_eq!(game.state.shift_to_algebraic(ep).unwrap(), "d6");
}

#[test]
fn test_en_passant_capture() {
    let mut game =
        Game::from_fen("rnbqkbnr/pppppppp/8/4P3/8/8/PPPP1PPP/RNBQKBNR b KQkq - 0 1").unwrap();
    let m = Move::from_lan("d7d5", &game.state).unwrap();
    game.makemove(&m).unwrap();
    let m = Move::from_lan("e5d6", &game.state).unwrap();
    assert!(m.ep);
    game.makemove(&m).unwrap();
    // the doubled-pushed black pawn is gone
    assert_eq!(game.state.count_pieces(Player::Black, Pieces::Pawn), 7);
    assert_eq!(game.state.count_pieces(Player::White, Pieces::Pawn), 8);
}

#[test]
fn test_castling_clears_rights() {
    let mut game =
        Game::from_fen("r3k2r/p1ppqpb1/bn2pnp1/3PN3/1p2P3/2N2Q1p/PPPBBPPP/R3K2R w KQkq - 0 1")
            .unwrap();
    let m = Move::from_lan("e1g1", &game.state).unwrap();
    game.makemove(&m).unwrap();
    // White's two castling flags are gone, Black's remain
    assert_eq!(game.state.get_castling(), 0b0011);
    // the rook crossed to f1: in the mirrored frame that is square 58
    let board = game.state.get_relative_board();
    assert_eq!(board.get_piece(58), Some((Player::White, Pieces::Rook)));
}

#[test]
fn test_checkmate_position() {
    // the fool's mate: White is checkmated with no legal reply
    let mut game =
        Game::from_fen("rnb1kbnr/pppp1ppp/8/4p3/6Pq/5P2/PPPPP2P/RNBQKBNR w KQkq - 0 3").unwrap();
    assert_eq!(game.legal_moves().len(), 0);
    assert!(game.is_checkmate(Player::White));
    assert_eq!(game.get_game_result(), GameResult::Win(Player::Black));
}

#[test]
fn test_stalemate_position() {
    let mut game = Game::from_fen("7k/5Q2/6K1/8/8/8/8/8 b - - 0 1").unwrap();
    assert_eq!(game.legal_moves().len(), 0);
    assert!(!game.is_checkmate(Player::Black));
    assert!(game.is_remis());
    assert_eq!(game.get_game_result(), GameResult::Remis);
}

#[test]
fn test_fifty_move_draw() {
    let mut game =
        Game::from_fen("rnbqkbnr/pppppppp/8/8/8/8/PPPPPPPP/RNBQKBNR w KQkq - 50 1").unwrap();
    assert!(game.is_remis());
    assert_eq!(game.get_game_result(), GameResult::Remis);
}

#[test]
fn test_makemove_rejects_illegal() {
    let mut game = Game::from_fen(STARTPOS).unwrap();
    let before = game.state;
    // a pawn cannot advance three ranks
    let m = Move { piece: Pieces::Pawn, from: 11, to: 35, promotion: None, ep: false };
    assert!(game.makemove(&m).is_err());
    assert_eq!(game.state, before);
}

#[test]
fn test_boards_stay_disjoint() {
    let mut game = Game::from_fen(STARTPOS).unwrap();
    for lan in ["e2e4", "d7d5", "e4d5", "d8d5", "b1c3"] {
        let m = Move::from_lan(lan, &game.state).unwrap();
        game.makemove(&m).unwrap();
    }
    let board = game.state.get_relative_board();
    let mut bbs: Vec<u64> = Vec::new();
    for player in [Player::White, Player::Black] {
        for piece in [
            Pieces::Pawn,
            Pieces::Rook,
            Pieces::Knight,
            Pieces::Bishop,
            Pieces::Queen,
            Pieces::King,
        ] {
            bbs.push(board.get_pieceboard(player, piece).bitboard);
        }
    }
    for i in 0..12 {
        for j in 0..12 {
            if i != j {
                assert_eq!(bbs[i] & bbs[j], 0, "bitboards {} and {} overlap", i, j);
            }
        }
    }
}

#[test]
fn test_history_stack() {
    let game = Game::from_fen(STARTPOS).unwrap();
    let st = game.state;
    let mut h = History::new(st);
    assert_eq!(h.peek(), Some(st));
    let mut st2 = st;
    st2.halfmove_clock = 7;
    h.push(st2);
    assert_eq!(h.peek(), Some(st2));
    assert_eq!(h.pop(), Some(st2));
    assert_eq!(h.pop(), Some(st));
    assert_eq!(h.pop(), None);
    h.push(st);
    h.clear();
    assert_eq!(h.peek(), None);
}

#[test]
fn test_load_fen_replaces_and_keeps_on_error() {
    let mut game = Game::from_fen(STARTPOS).unwrap();
    game.load_fen("r3k2r/p1ppqpb1/bn2pnp1/3PN3/1p2P3/2N2Q1p/PPPBBPPP/R3K2R w KQkq - 0 1")
        .unwrap();
    assert_eq!(game.legal_moves().len(), 48);
    let before = game.state;
    assert!(game.load_fen("not a fen").is_err());
    assert_eq!(game.state, before);
}

#[test]
fn test_game_result_open_position() {
    let mut game = Game::from_fen(STARTPOS).unwrap();
    assert_eq!(game.get_game_result(), GameResult::NotDone);
}

#[test]
fn test_undo_without_past_is_noop() {
    let mut game = Game::from_fen(STARTPOS).unwrap();
    let before = game.state;
    game.undo_move();
    assert_eq!(game.state, before);
    assert_eq!(game.history.history.len(), 1);
}
