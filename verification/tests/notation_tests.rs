use chess::types::{Castle, Move, Piece, Position};

#[test]
fn position_parses_file_and_rank() {
    let p: Position = "e4".parse().unwrap();
    assert_eq!(p, Position { row: 3, col: 4 });
    let p: Position = "a1".parse().unwrap();
    assert_eq!(p, Position { row: 0, col: 0 });
    let p: Position = "h8".parse().unwrap();
    assert_eq!(p, Position { row: 7, col: 7 });
}

#[test]
fn position_ignores_case_and_surrounding_space() {
    let p: Position = "  E4\t".parse().unwrap();
    assert_eq!(p, Position { row: 3, col: 4 });
    let p = Position::parse_square("\u{3000}c6\u{a0}").unwrap();
    assert_eq!(p, Position { row: 5, col: 2 });
}

#[test]
fn position_rejects_bad_names() {
    assert!("i1".parse::<Position>().is_err());
    assert!("a9".parse::<Position>().is_err());
    assert!("a0".parse::<Position>().is_err());
    assert!("e".parse::<Position>().is_err());
    assert!("e44".parse::<Position>().is_err());
    assert!("".parse::<Position>().is_err());
    assert!("e 4".parse::<Position>().is_err());
    assert!("4e".parse::<Position>().is_err());
}

#[test]
fn move_parses_squares() {
    let m: Move = "e2e4".parse().unwrap();
    assert_eq!(m.start, Position { row: 1, col: 4 });
    assert_eq!(m.end, Position { row: 3, col: 4 });
    assert_eq!(m.promotion, None);
    assert_eq!(m.capture, None);
    assert_eq!(m.castle, Castle::No);
    assert!(!m.double_pawn_push);
    assert!(!m.en_passante);
}

#[test]
fn move_parses_promotion_by_direction() {
    let m: Move = "e7e8q".parse().unwrap();
    assert_eq!(m.promotion, Some(Piece::white_queen()));
    let m: Move = " E7E8N ".parse().unwrap();
    assert_eq!(m.promotion, Some(Piece::white_knight()));
    let m: Move = "e2e1q".parse().unwrap();
    assert_eq!(m.promotion, Some(Piece::black_queen()));
    // going down, only the queen is turned black
    let m: Move = "e2e1b".parse().unwrap();
    assert_eq!(m.promotion, Some(Piece::white_bishop()));
    let m: Move = "e2e1r".parse().unwrap();
    assert_eq!(m.promotion, Some(Piece::white_rook()));
}

#[test]
fn move_with_unknown_promotion_letter_has_none() {
    let m: Move = "e7e8x".parse().unwrap();
    assert_eq!(m.promotion, None);
    let m: Move = "e7e8\u{212a}".parse().unwrap();
    assert_eq!(m.promotion, None);
    assert_eq!(m.end, Position { row: 7, col: 4 });
}

#[test]
fn move_rejects_bad_text() {
    assert!("e2e".parse::<Move>().is_err());
    assert!("e2e4e4".parse::<Move>().is_err());
    assert!("e2i4".parse::<Move>().is_err());
    assert!("e9e4".parse::<Move>().is_err());
    assert!("e7e8\u{e9}".parse::<Move>().is_err());
    assert!("".parse::<Move>().is_err());
}

#[test]
fn position_and_move_text() {
    assert_eq!(Position { row: 3, col: 4 }.to_string(), "e4");
    assert_eq!(Position { row: 0, col: 7 }.to_string(), "h1");
    let m: Move = "g1f3".parse().unwrap();
    assert_eq!(m.to_string(), "g1f3");
    let m: Move = "e7e8q".parse().unwrap();
    assert_eq!(m.to_string(), "e7e8");
}

#[test]
fn piece_text() {
    assert_eq!(Piece::white_queen().to_string(), "\u{2655}");
    assert_eq!(Piece::black_knight().to_string(), "\u{265e}");
    assert_eq!(Piece::black_pawn().to_string(), "\u{265f}\u{fe0e}");
    assert_eq!(Piece::null_piece().to_string(), "");
}

#[test]
fn piece_kind_and_side() {
    assert_eq!(Piece::black_rook().kind(), Piece::ROOK);
    assert_eq!(Piece::black_rook().side(), Piece::BLACK);
    assert_eq!(Piece::white_king().kind(), Piece::KING);
    assert_eq!(Piece::white_king().side(), Piece::WHITE);
    assert!(Piece::null_piece().is_null());
    assert!(!Piece::white_pawn().is_null());
}

#[test]
fn position_bounds() {
    assert!(Position { row: 0, col: 7 }.in_bounds());
    assert!(!Position { row: 8, col: 0 }.in_bounds());
    assert!(!Position { row: 0, col: -1 }.in_bounds());
    assert_eq!(
        Position { row: 2, col: 3 } + Position { row: -1, col: 2 },
        Position { row: 1, col: 5 }
    );
}

#[test]
fn default_move_is_a1_a1() {
    let m = Move::default();
    assert_eq!(m.start, Position { row: 0, col: 0 });
    assert_eq!(m.end, Position { row: 0, col: 0 });
    assert_eq!(m.capture, None);
    assert_eq!(m.castle, Castle::No);
}

#[test]
fn square_and_move_names_read_back() {
    for row in 0..8 {
        for col in 0..8 {
            let p = Position { row, col };
            assert_eq!(p.to_string().parse::<Position>().unwrap(), p);
        }
    }
    let m: Move = "b1c3".parse().unwrap();
    let back: Move = m.to_string().parse().unwrap();
    assert_eq!(back.start, m.start);
    assert_eq!(back.end, m.end);
    assert_eq!(back.promotion, None);
}

#[test]
fn square_read_from_text_names_the_trimmed_lower_text() {
    for text in [" E4 ", "h8", "\tA1\n", "c7"] {
        let p = Position::parse_square(text).unwrap();
        assert_eq!(p.to_string(), text.trim().to_lowercase());
    }
}
