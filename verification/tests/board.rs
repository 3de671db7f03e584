use rustchess::board::{BitBoard, Board, Pieces, Player};
use rustchess::game::{algebraic_to_shift, Game, GameState};

const STARTPOS: &str = "rnbqkbnr/pppppppp/8/8/8/8/PPPPPPPP/RNBQKBNR w KQkq - 0 1";

#[test]
fn test_bitboard_ops() {
    let mut bb = BitBoard::new();
    assert_eq!(bb.bitboard, 0);
    assert_eq!(bb.flip_bit(5), Ok(()));
    assert_eq!(bb.get_bit(5), Ok(true));
    assert_eq!(bb.get_bit(6), Ok(false));
    assert_eq!(bb.flip_bit(5), Ok(()));
    assert_eq!(bb.bitboard, 0);
    assert!(bb.flip_bit(64).is_err());
    assert!(bb.flip_bit(-1).is_err());
    assert!(bb.get_bit(64).is_err());
    assert!(bb.get_bit(-1).is_err());
}

#[test]
fn test_flip_involution() {
    let board =
        Board::from_fen("r3k2r/p1ppqpb1/bn2pnp1/3PN3/1p2P3/2N2Q1p/PPPBBPPP/R3K2R w KQkq - 0 1")
            .unwrap();
    let mut flipped = board;
    flipped.flip();
    assert_ne!(flipped, board);
    flipped.flip();
    assert_eq!(flipped, board);
}

#[test]
fn test_get_piece_matches_bitboards() {
    let board = Board::from_fen(STARTPOS).unwrap();
    // the white king stands on its home square
    assert_eq!(board.get_piece(3), Some((Player::White, Pieces::King)));
    // an empty square in the middle
    assert_eq!(board.get_piece(27), None);
    // out-of-range squares hold nothing
    assert_eq!(board.get_piece(64), None);
    assert_eq!(board.get_piece(-1), None);
    // a reported piece is claimed by exactly one of the twelve bitboards
    let mut claims = 0;
    for player in [Player::White, Player::Black] {
        for piece in [
            Pieces::Pawn,
            Pieces::Rook,
            Pieces::Knight,
            Pieces::Bishop,
            Pieces::Queen,
            Pieces::King,
        ] {
            if board.get_pieceboard(player, piece).bitboard & (1u64 << 3) != 0 {
                claims += 1;
            }
        }
    }
    assert_eq!(claims, 1);
}

#[test]
fn test_masks_cover_startpos() {
    let board = Board::from_fen(STARTPOS).unwrap();
    assert_eq!(board.get_player_mask(Player::White), 0xFFFF);
    assert_eq!(board.get_player_mask(Player::Black), 0xFFFF_0000_0000_0000);
    assert_eq!(board.get_freesq_mask(), !0xFFFF_0000_0000_FFFFu64);
}

#[test]
fn test_board_fen_rejects_malformed() {
    assert!(Board::from_fen("9/8/8/8/8/8/8/8 w - - 0 1").is_err());
    assert!(Board::from_fen("8/8/8/8/8/8/8 w - - 0 1").is_err());
    assert!(Board::from_fen("ppppppppp/8/8/8/8/8/8/8 w - - 0 1").is_err());
    assert!(Board::from_fen("8/8/8x5/8/8/8/8/8 w - - 0 1").is_err());
    assert!(Board::from_fen("").is_err());
}

#[test]
fn test_state_fen_rejects_malformed() {
    assert!(GameState::from_fen("8/8/8/8/8/8/8/8 w - -").is_err());
    assert!(GameState::from_fen("8/8/8/8/8/8/8/8 x - - 0 1").is_err());
    assert!(GameState::from_fen("8/8/8/8/8/8/8/8 w KX - 0 1").is_err());
    assert!(GameState::from_fen("8/8/8/8/8/8/8/8 w - e9 0 1").is_err());
    assert!(GameState::from_fen("8/8/8/8/8/8/8/8 w - - abc 1").is_err());
    assert!(GameState::from_fen("8/8/8/8/8/8/8/8 w - - 0 0").is_err());
    assert!(GameState::from_fen("8/8/8/8/8/8/8/8 w - - 0").is_err());
}

#[test]
fn test_state_fen_startpos_fields() {
    let st = GameState::from_fen(STARTPOS).unwrap();
    assert_eq!(st.get_player(), Player::White);
    assert_eq!(st.get_castling(), 0b1111);
    assert_eq!(st.get_ep(), None);
    assert_eq!(st.halfmove_clock, 0);
    assert_eq!(st.fullmove_clock, 1);
    assert_eq!(st.get_relative_board().get_pieceboard(Player::White, Pieces::Pawn).bitboard, 0xFF00);
}

#[test]
fn test_state_fen_black_to_move_is_mirrored() {
    let st = GameState::from_fen("rnbqkbnr/pppppppp/8/8/8/8/PPPPPPPP/RNBQKBNR b KQkq - 0 1")
        .unwrap();
    assert_eq!(st.get_player(), Player::Black);
    // in the mover's frame the black pawns sit on the second rank
    assert_eq!(st.get_relative_board().get_pieceboard(Player::Black, Pieces::Pawn).bitboard, 0xFF00);
    assert_eq!(
        st.get_relative_board().get_pieceboard(Player::White, Pieces::Pawn).bitboard,
        0x00FF_0000_0000_0000
    );
}

#[test]
fn test_algebraic_to_shift_absolute() {
    assert_eq!(algebraic_to_shift("e3"), Some(19));
    assert_eq!(algebraic_to_shift("h1"), Some(0));
    assert_eq!(algebraic_to_shift("a8"), Some(63));
    assert_eq!(algebraic_to_shift("e"), None);
    assert_eq!(algebraic_to_shift("e33"), None);
    assert_eq!(algebraic_to_shift("i3"), None);
    assert_eq!(algebraic_to_shift("e9"), None);
}

#[test]
fn test_square_names_round_trip() {
    let white = Game::from_fen(STARTPOS).unwrap().state;
    assert_eq!(white.shift_to_algebraic(0).unwrap(), "h1");
    assert_eq!(white.shift_to_algebraic(63).unwrap(), "a8");
    assert_eq!(white.shift_to_algebraic(64), None);
    assert_eq!(white.algebraic_to_shift("h1"), Some(0));
    assert_eq!(white.algebraic_to_shift("a8"), Some(63));
    assert_eq!(white.algebraic_to_shift("z9"), None);

    let black = Game::from_fen("rnbqkbnr/pppppppp/8/8/8/8/PPPPPPPP/RNBQKBNR b KQkq - 0 1")
        .unwrap()
        .state;
    // the mirrored frame mirrors the rank names
    assert_eq!(black.shift_to_algebraic(0).unwrap(), "h8");
    assert_eq!(black.algebraic_to_shift("h8"), Some(0));
}
