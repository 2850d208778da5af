use chess::board::Board;
use chess::types::{Castle, Move, Piece, Position};

const KIWI: &str = "rnbq1k1r/pp1Pbppp/2p5/8/2B5/8/PPP1NnPP/RNBQK2R w KQ - 1 8";

fn pos(s: &str) -> Position {
    s.parse().unwrap()
}

fn annotated(board: &Board, s: &str) -> Move {
    board.annotate_move(&s.parse::<Move>().unwrap())
}

#[test]
fn new_board_pieces() {
    let board = Board::new();
    assert_eq!(board.get(pos("e1")), Piece::white_king());
    assert_eq!(board.get(pos("d8")), Piece::black_queen());
    assert_eq!(board.get(pos("a2")), Piece::white_pawn());
    assert_eq!(board.get(pos("h7")), Piece::black_pawn());
    assert_eq!(board.get(pos("e4")), Piece::null_piece());
    assert!(board.is_white_turn);
    assert!(!board.is_check());
}

#[test]
fn default_is_new() {
    assert_eq!(Board::default().to_string(), Board::new().to_string());
}

fn expected_start_text() -> String {
    let rule = "   +---+---+---+---+---+---+---+---+\n";
    let mut s = String::from(
        "   ep: None, castle_rights: [WhiteKingSide, WhiteQueenSide, BlackKingSide, BlackQueenSide]\n",
    );
    s.push_str(rule);
    let rows: [&[&str; 8]; 8] = [
        &["\u{265c}", "\u{265e}", "\u{265d}", "\u{265b}", "\u{265a}", "\u{265d}", "\u{265e}", "\u{265c}"],
        &["\u{265f}\u{fe0e}"; 8],
        &[" "; 8],
        &[" "; 8],
        &[" "; 8],
        &[" "; 8],
        &["\u{2659}"; 8],
        &["\u{2656}", "\u{2658}", "\u{2657}", "\u{2655}", "\u{2654}", "\u{2657}", "\u{2658}", "\u{2656}"],
    ];
    for (i, row) in rows.iter().enumerate() {
        s.push_str(&format!(" {} |", 8 - i));
        for cell in row.iter() {
            s.push_str(&format!(" {} |", cell));
        }
        s.push('\n');
        s.push_str(rule);
    }
    s.push_str("     A   B   C   D   E   F   G   H  \n");
    s
}

#[test]
fn new_board_text() {
    assert_eq!(Board::new().to_string(), expected_start_text());
}

#[test]
fn gen_moves_from_start() {
    let board = Board::new();
    let moves = board.gen_moves();
    assert_eq!(moves.len(), 20);
    assert!(moves.iter().all(|m| m.capture.is_none() && m.castle == Castle::No));
    assert_eq!(moves.iter().filter(|m| m.double_pawn_push).count(), 8);
}

#[test]
fn make_and_unmake_restore_the_board() {
    let mut board = Board::new();
    let before = board.to_string();
    let mv = annotated(&board, "e2e4");
    assert!(mv.double_pawn_push);
    board.make_move(&mv);
    assert!(!board.is_white_turn);
    assert_eq!(board.get(pos("e4")), Piece::white_pawn());
    assert_eq!(board.get(pos("e2")), Piece::null_piece());
    assert!(board.to_string().starts_with("   ep: Some(Position { row: 2, col: 4 }), castle_rights"));
    board.unmake_move(&mv);
    assert_eq!(board.to_string(), before);
    assert!(board.is_white_turn);
}

#[test]
fn king_move_drops_castling_rights() {
    let mut board: Board = "4k3/8/8/8/8/8/8/R3K2R w KQ - 0 1".parse().unwrap();
    let mv = annotated(&board, "e1e2");
    assert_eq!(mv.castle, Castle::No);
    board.make_move(&mv);
    assert!(board.to_string().starts_with("   ep: None, castle_rights: []\n"));
    board.unmake_move(&mv);
    assert!(board.to_string().starts_with("   ep: None, castle_rights: [WhiteKingSide, WhiteQueenSide]\n"));
}

#[test]
fn rook_move_drops_one_right() {
    let mut board: Board = "4k3/8/8/8/8/8/8/R3K2R w KQ - 0 1".parse().unwrap();
    let mv = annotated(&board, "h1h5");
    board.make_move(&mv);
    assert!(board.to_string().starts_with("   ep: None, castle_rights: [WhiteQueenSide]\n"));
}

#[test]
fn castling_moves_rook_and_back() {
    let mut board: Board = "4k3/8/8/8/8/8/8/R3K2R w KQ - 0 1".parse().unwrap();
    let before = board.to_string();
    let mv = annotated(&board, "e1g1");
    assert_eq!(mv.castle, Castle::WhiteKingSide);
    assert!(board.gen_moves().iter().any(|m| m.castle == Castle::WhiteKingSide));
    assert!(board.gen_moves().iter().any(|m| m.castle == Castle::WhiteQueenSide));
    board.make_move(&mv);
    assert_eq!(board.get(pos("g1")), Piece::white_king());
    assert_eq!(board.get(pos("f1")), Piece::white_rook());
    assert_eq!(board.get(pos("h1")), Piece::null_piece());
    board.unmake_move(&mv);
    assert_eq!(board.to_string(), before);
}

#[test]
fn queen_side_castle_annotation() {
    let board: Board = "r3k3/8/8/8/8/8/8/4K3 b q - 0 1".parse().unwrap();
    let mv = annotated(&board, "e8c8");
    assert_eq!(mv.castle, Castle::BlackQueenSide);
    let mv = annotated(&board, "e8d8");
    assert_eq!(mv.castle, Castle::No);
}

#[test]
fn en_passant_capture_and_back() {
    let mut board: Board = "4k3/8/8/3pP3/8/8/8/4K3 w - d6 0 1".parse().unwrap();
    let before = board.to_string();
    let moves = board.gen_moves();
    let ep: Vec<&Move> = moves.iter().filter(|m| m.en_passante).collect();
    assert_eq!(ep.len(), 1);
    assert_eq!(ep[0].end, pos("d6"));
    assert_eq!(ep[0].capture, Some(Piece::black_pawn()));
    // annotation marks the en-passant capture but, the end cell being
    // empty, records no captured piece
    let noted = annotated(&board, "e5d6");
    assert!(noted.en_passante);
    assert_eq!(noted.capture, None);
    let mv = *ep[0];
    board.make_move(&mv);
    assert_eq!(board.get(pos("d5")), Piece::null_piece());
    assert_eq!(board.get(pos("d6")), Piece::white_pawn());
    board.unmake_move(&mv);
    assert_eq!(board.to_string(), before);
}

#[test]
fn promotions_are_generated_and_undone() {
    let mut board: Board = "k7/4P3/8/8/8/8/8/4K3 w - - 0 1".parse().unwrap();
    let before = board.to_string();
    let moves = board.gen_moves();
    let proms: Vec<&Move> = moves.iter().filter(|m| m.promotion.is_some()).collect();
    assert_eq!(proms.len(), 4);
    let mv = annotated(&board, "e7e8q");
    board.make_move(&mv);
    assert_eq!(board.get(pos("e8")), Piece::white_queen());
    assert!(board.is_check());
    board.unmake_move(&mv);
    assert_eq!(board.to_string(), before);
}

#[test]
fn check_is_seen() {
    let board: Board = "4k3/8/8/8/8/8/8/4K2r w - - 0 1".parse().unwrap();
    assert!(board.is_check());
    let board: Board = "4k3/8/8/8/8/8/3p4/4K3 w - - 0 1".parse().unwrap();
    assert!(board.is_check());
    let board: Board = "4k3/8/8/8/8/5n2/8/4K3 w - - 0 1".parse().unwrap();
    assert!(board.is_check());
    let board: Board = "4k3/8/8/b7/8/8/8/4K3 w - - 0 1".parse().unwrap();
    assert!(board.is_check());
    let board: Board = "4k3/8/8/b7/8/2P5/8/4K3 w - - 0 1".parse().unwrap();
    assert!(!board.is_check());
}

#[test]
fn is_legal_keeps_the_board() {
    let mut board: Board = "4k3/8/8/8/8/8/4r3/4K3 w - - 0 1".parse().unwrap();
    let before = board.to_string();
    let take = annotated(&board, "e1e2");
    assert!(board.is_legal(&take));
    let side = annotated(&board, "e1f2");
    assert!(!board.is_legal(&side));
    assert_eq!(board.to_string(), before);
}

#[test]
fn fen_reads_kings_and_turn() {
    let board: Board = KIWI.parse().unwrap();
    assert!(board.is_white_turn);
    assert_eq!(board.get(pos("f8")), Piece::black_king());
    assert_eq!(board.get(pos("d7")), Piece::white_pawn());
    assert_eq!(board.get(pos("f2")), Piece::black_knight());
    assert!(board.to_string().starts_with("   ep: None, castle_rights: [WhiteKingSide, WhiteQueenSide]\n"));
    let board = Board::from_fen("8/8/8/8/8/8/8/K6k b - e3 0 1").unwrap();
    assert!(!board.is_white_turn);
    assert!(board.to_string().starts_with("   ep: Some(Position { row: 2, col: 4 }), castle_rights: []\n"));
}

#[test]
fn fen_errors() {
    assert!("8/8/8/8/8/8/8/8 w - -".parse::<Board>().is_err());
    assert!("8/8/8/8/8/8/8/8  w - - 0 1".parse::<Board>().is_err());
    assert!("8/8/8/8/8/8/8/7x w - - 0 1".parse::<Board>().is_err());
    assert!("8/8/8/8/8/8/8/8 x - - 0 1".parse::<Board>().is_err());
    assert!("8/8/8/8/8/8/8/8 w KX - 0 1".parse::<Board>().is_err());
    assert!("8/8/8/8/8/8/8/8 w - e9 0 1".parse::<Board>().is_err());
    assert!("8/8/8/8/8/8/8/8 w - - 0 1".parse::<Board>().is_ok());
}

#[test]
fn perft_counts_captures() {
    let mut board = Board::new();
    assert_eq!(board.perft(3), (8902, 34, 0, 0));
    let mut board: Board = KIWI.parse().unwrap();
    let (count, _, _, castles) = board.perft(1);
    assert_eq!(count, 44);
    assert_eq!(castles, 1);
}

#[test]
fn perft_keeps_the_board() {
    let mut board: Board = KIWI.parse().unwrap();
    let before = board.to_string();
    board.perft(2);
    assert_eq!(board.to_string(), before);
}

#[test]
fn perft_with_en_passant() {
    let mut board: Board = "4k3/8/8/3pP3/8/8/8/4K3 w - d6 0 1".parse().unwrap();
    let (count, captures, ep, _) = board.perft(1);
    assert_eq!(ep, 1);
    assert_eq!(captures, 1);
    assert_eq!(count, 7);
}

#[test]
fn fen_of_the_start_is_the_new_board() {
    let board = Board::from_fen("rnbqkbnr/pppppppp/8/8/8/8/PPPPPPPP/RNBQKBNR w KQkq - 0 1").unwrap();
    assert_eq!(board.to_string(), Board::new().to_string());
}

#[test]
fn perft_from_a_new_board_keeps_it() {
    let mut board = Board::new();
    let before = board.to_string();
    assert_eq!(board.perft(2), (400, 0, 0, 0));
    assert_eq!(board.to_string(), before);
}

#[test]
fn try_gen_moves_matches_gen_moves() {
    let board = Board::new();
    let checked = board.try_gen_moves().unwrap();
    let plain = board.gen_moves();
    assert_eq!(checked.len(), 20);
    for (a, b) in checked.iter().zip(plain.iter()) {
        assert_eq!(a.start, b.start);
        assert_eq!(a.end, b.end);
        assert_eq!(a.double_pawn_push, b.double_pawn_push);
    }
}

#[test]
fn try_perft_counts_like_perft() {
    let mut board = Board::new();
    assert_eq!(board.try_perft(3), Some(board.perft(3)));
    assert_eq!(board.try_perft(3), Some((8902, 34, 0, 0)));
    let mut kiwi: Board = KIWI.parse().unwrap();
    assert_eq!(kiwi.try_perft(2).map(|c| c.0), Some(1486));
    assert_eq!(kiwi.to_string(), KIWI.parse::<Board>().unwrap().to_string());
}

#[test]
fn try_perft_at_depth_zero_is_none() {
    let mut board = Board::new();
    let before = board.to_string();
    assert_eq!(board.try_perft(0), None);
    assert_eq!(board.to_string(), before);
    assert!(board.is_white_turn);
}

#[test]
fn making_a_move_changes_only_its_cells() {
    let mut board: Board = "r3k2r/8/8/8/8/8/8/R3K2R w KQkq - 0 1".parse().unwrap();
    let before = Board::from_fen("r3k2r/8/8/8/8/8/8/R3K2R w KQkq - 0 1").unwrap();
    let mv = annotated(&board, "e1g1");
    assert_eq!(mv.castle, Castle::WhiteKingSide);
    board.make_move(&mv);
    let touched = ["e1", "g1", "h1", "f1"];
    for row in 0..8i8 {
        for col in 0..8i8 {
            let q = Position { row, col };
            if !touched.contains(&q.to_string().as_str()) {
                assert_eq!(board.get(q), before.get(q));
            }
        }
    }
    assert_eq!(board.get(pos("g1")), Piece::white_king());
    assert_eq!(board.get(pos("f1")), Piece::white_rook());
}

#[test]
fn taking_a_rook_on_its_corner_drops_its_right_in_order() {
    let mut board: Board = "r3k2r/8/8/8/8/8/8/R3K2R w KQkq - 0 1".parse().unwrap();
    let mv = annotated(&board, "a1a8");
    assert_eq!(mv.capture, Some(Piece::black_rook()));
    board.make_move(&mv);
    assert!(board
        .to_string()
        .starts_with("   ep: None, castle_rights: [WhiteKingSide, BlackKingSide]\n"));
}
